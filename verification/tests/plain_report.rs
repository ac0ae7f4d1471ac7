use rustical::error::Error;
use rustical::memory_store::MemoryStore;
use rustical::routes::calendar::{handle_report_calendar_query, route_report_calendar};
use rustical::store::{Calendar, CalendarObject, CalendarStore};
use rustical::xml::tree::Tree;

const HEAD: &str = "<multistatus xmlns=\"DAV:\" xmlns:C=\"urn:ietf:params:xml:ns:caldav\" \
                    xmlns:IC=\"http://apple.com/ns/ical/\">";

fn store() -> MemoryStore {
    let mut store = MemoryStore::new();
    store.insert_calendar(Calendar {
        principal: "alice".to_owned(),
        id: "work".to_owned(),
        name: None,
        description: None,
        color: None,
    });
    for (cal, id, ics) in [("work", "e1", "ONE"), ("home", "h1", "HOME"), ("work", "e2", "TWO")] {
        store
            .put_object(
                "alice".to_owned(),
                cal.to_owned(),
                CalendarObject::from_ics(id.to_owned(), ics.to_owned()),
            )
            .unwrap();
    }
    store
}

fn etag(id: &str, ics: &str) -> String {
    CalendarObject::from_ics(id.to_owned(), ics.to_owned()).get_etag()
}

#[test]
fn the_tree_of_a_document_lists_its_nodes_in_document_order() {
    let tree = Tree::parse("<a><b>t</b><!-- c --><d><e/></d></a>").unwrap();
    let names: Vec<&str> = tree.nodes.iter().map(|n| n.name.as_str()).collect();
    assert_eq!(names, vec!["", "a", "b", "", "", "d", "e"]);
    let elements: Vec<bool> = tree.nodes.iter().map(|n| n.element).collect();
    assert_eq!(elements, vec![false, true, true, false, false, true, true]);
    assert_eq!(tree.nodes[0].parent, None);
    assert_eq!(tree.nodes[1].parent, Some(tree.nodes[0].id));
    assert_eq!(tree.nodes[2].parent, Some(tree.nodes[1].id));
    assert_eq!(tree.nodes[3].parent, Some(tree.nodes[2].id));
    assert_eq!(tree.nodes[5].parent, Some(tree.nodes[1].id));
    assert_eq!(tree.nodes[6].parent, Some(tree.nodes[5].id));
    assert_eq!(tree.root_element(), Some(1));
}

#[test]
fn names_are_local_names() {
    let tree = Tree::parse("<C:a xmlns:C=\"urn:c\"><C:b/></C:a>").unwrap();
    assert_eq!(tree.nodes[1].name, "a");
    assert_eq!(tree.nodes[2].name, "b");
}

#[test]
fn a_text_that_is_no_document_has_no_tree() {
    assert!(Tree::parse("").is_none());
    assert!(Tree::parse("<a>").is_none());
    assert!(Tree::parse("<a></b>").is_none());
    assert!(Tree::parse("text").is_none());
}

#[test]
fn children_are_found_by_name() {
    let tree = Tree::parse("<q><x><prop/></x><y/><prop><a/></prop><prop><b/></prop></q>").unwrap();
    let root = tree.root_element().unwrap();
    let id = tree.nodes[root].id;
    // The `prop` inside `x` is no child of the root.
    let prop = tree.first_child(id, Some("prop")).unwrap();
    assert_eq!(tree.child_names(tree.nodes[prop].id), vec!["a"]);
    assert_eq!(tree.first_child(id, None), Some(root + 1));
    assert_eq!(tree.first_child(id, Some("z")), None);
    assert_eq!(tree.child_names(id), vec!["x", "y", "prop"]);
    // Only elements are children with a name.
    let mixed = Tree::parse("<p>text<a/><!-- c --><b/> <a/></p>").unwrap();
    let p = mixed.nodes[mixed.root_element().unwrap()].id;
    assert_eq!(mixed.child_names(p), vec!["a", "b"]);
    assert_eq!(tree.child_names(usize::MAX), Vec::<String>::new());
}

#[test]
fn a_plain_report_reports_every_object_of_the_calendar() {
    let response = route_report_calendar(
        &store(),
        "work",
        "<C:calendar-query xmlns=\"DAV:\" xmlns:C=\"urn:ietf:params:xml:ns:caldav\">\
         <prop><getetag/><unknown/><C:calendar-data/><getetag/><getcontenttype/></prop>\
         <C:filter><C:anything/></C:filter></C:calendar-query>",
        "/cal/alice/work",
    )
    .unwrap();
    assert_eq!(response.status, 207);
    assert_eq!(response.headers[0].value, "text/xml");
    assert_eq!(
        response.body,
        format!(
            "{HEAD}<response><href>/cal/alice/work/e1</href><propstat><prop><getetag>{}</getetag>\
             <C:calendar-data>ONE</C:calendar-data><getcontenttype>text/calendar</getcontenttype>\
             </prop><status>HTTP/1.1 200 OK</status></propstat><propstat><prop><unknown/></prop>\
             <status>HTTP/1.1 404 Not Found</status></propstat></response>\
             <response><href>/cal/alice/work/e2</href><propstat><prop><getetag>{}</getetag>\
             <C:calendar-data>TWO</C:calendar-data><getcontenttype>text/calendar</getcontenttype>\
             </prop><status>HTTP/1.1 200 OK</status></propstat><propstat><prop><unknown/></prop>\
             <status>HTTP/1.1 404 Not Found</status></propstat></response></multistatus>",
            etag("e1", "ONE"),
            etag("e2", "TWO"),
        )
    );
}

#[test]
fn a_plain_report_takes_both_reports_and_no_other_root() {
    let store = store();
    let body = "<calendar-multiget><prop/></calendar-multiget>";
    let response = route_report_calendar(&store, "work", body, "/p").unwrap();
    assert_eq!(
        response.body,
        format!(
            "{HEAD}<response><href>/p/e1</href><propstat><prop/><status>HTTP/1.1 200 OK</status>\
             </propstat></response><response><href>/p/e2</href><propstat><prop/>\
             <status>HTTP/1.1 200 OK</status></propstat></response></multistatus>"
        )
    );
    assert_eq!(
        route_report_calendar(&store, "work", "<propfind><prop/></propfind>", "/p").unwrap_err(),
        Error::BadRequest
    );
    assert_eq!(
        route_report_calendar(&store, "work", "<calendar-query><allprop/></calendar-query>", "/p")
            .unwrap_err(),
        Error::BadRequest
    );
    // A body that is no document is a bad request as well.
    assert_eq!(
        route_report_calendar(&store, "work", "<calendar-query>", "/p").unwrap_err(),
        Error::BadRequest
    );
    assert_eq!(route_report_calendar(&store, "work", "", "/p").unwrap_err(), Error::BadRequest);
    let empty = route_report_calendar(&store, "none", "<calendar-query><prop/></calendar-query>", "/p")
        .unwrap();
    assert_eq!(empty.body, format!("{}/>", &HEAD[..HEAD.len() - 1]));
}

#[test]
fn the_entries_of_a_plain_report_are_written_for_the_names_under_prop() {
    let tree = Tree::parse(
        "<r><o><prop><getetag/></prop></o><prop>text<calendar-data/><x/><y/><x/></prop></r>",
    )
    .unwrap();
    let root = tree.root_element().unwrap();
    let objects = vec![CalendarObject::from_ics("e".to_owned(), "a & b".to_owned())];
    let response = handle_report_calendar_query(&tree, root, "/base", objects).unwrap();
    assert_eq!(
        response.body,
        format!(
            "{HEAD}<response><href>/base/e</href><propstat><prop>\
             <C:calendar-data>a &amp; b</C:calendar-data></prop><status>HTTP/1.1 200 OK</status>\
             </propstat><propstat><prop><x/><y/></prop><status>HTTP/1.1 404 Not Found</status>\
             </propstat></response></multistatus>"
        )
    );
    // An element without `prop`, and a place that is none, are bad requests.
    assert_eq!(
        handle_report_calendar_query(&tree, root + 1, "/base", vec![]).unwrap().status,
        207
    );
    assert_eq!(
        handle_report_calendar_query(&tree, root + 2, "/base", vec![]).unwrap_err(),
        Error::BadRequest
    );
    assert_eq!(
        handle_report_calendar_query(&tree, 999, "/base", vec![]).unwrap_err(),
        Error::BadRequest
    );
}
