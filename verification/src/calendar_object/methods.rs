//! GET and PUT on the URL of a calendar object.

use vstd::prelude::*;
use crate::error::Error;
use crate::http::{HttpResponse, ResponseModel};
use crate::resource::User;
use crate::store::{CalendarObject, CalendarStore, ObjectModel, spec_etag, StoreError};
use crate::text::str_eq;

verus! {

/// What the URL of a calendar object names.
#[derive(Debug)]
pub struct CalendarObjectPathComponents {
    pub principal: String,
    pub cal_id: String,
    pub object_id: String,
}

pub struct PathModel {
    pub principal: Seq<char>,
    pub cal_id: Seq<char>,
    pub object_id: Seq<char>,
}

impl View for CalendarObjectPathComponents {
    type V = PathModel;

    open spec fn view(&self) -> PathModel {
        PathModel { principal: self.principal@, cal_id: self.cal_id@, object_id: self.object_id@ }
    }
}

pub const STATUS_CREATED: u16 = 201;

pub const STATUS_UNAUTHORIZED: u16 = 401;

/// The answer to an identity that is not the principal of the URL.
pub open spec fn unauthorized() -> ResponseModel {
    ResponseModel { status: 401, headers: seq![], body: seq![] }
}

/// Whether the identity may touch the calendar of the URL; `None` where
/// that cannot be told because the store fails.
pub open spec fn owns_calendar<C: CalendarStore>(store: C::V, path: PathModel, user: Seq<char>) -> Result<
    bool,
    Error,
> {
    if user != path.principal {
        Ok(false)
    } else {
        match C::spec_get_calendar(store, path.principal, path.cal_id) {
            Ok(calendar) => Ok(user == calendar.principal),
            Err(e) => Err(e.spec_into_error()),
        }
    }
}

/// The answer to a GET: the object's text with its entity tag, for the
/// owner of the calendar only.
pub open spec fn spec_get_event<C: CalendarStore>(store: C::V, path: PathModel, user: Seq<char>) -> Result<
    ResponseModel,
    Error,
> {
    match owns_calendar::<C>(store, path, user) {
        Err(e) => Err(e),
        Ok(false) => Ok(unauthorized()),
        Ok(true) => match C::spec_get_object(store, path.principal, path.cal_id, path.object_id) {
            Err(e) => Err(e.spec_into_error()),
            Ok(object) => Ok(
                ResponseModel {
                    status: 200,
                    headers: seq![
                        ("ETag"@, spec_etag(object)),
                        ("Content-Type"@, "text/calendar"@),
                    ],
                    body: object.ics,
                },
            ),
        },
    }
}

fn check_owner<C: CalendarStore>(store: &C, path: &CalendarObjectPathComponents, user: &User) -> (owner:
    Result<bool, Error>)
    ensures
        owner == owns_calendar::<C>(store@, path@, user@),
{
    if !str_eq(user.id.as_str(), path.principal.as_str()) {
        return Ok(false);
    }
    let calendar = match store.get_calendar(path.principal.as_str(), path.cal_id.as_str()) {
        Ok(calendar) => calendar,
        Err(e) => {
            return Err(e.into_error());
        },
    };
    Ok(str_eq(user.id.as_str(), calendar.principal.as_str()))
}

/// Answers a GET on a calendar object.
pub fn get_event<C: CalendarStore>(store: &C, path: CalendarObjectPathComponents, user: &User) -> (response:
    Result<HttpResponse, Error>)
    ensures
        match spec_get_event::<C>(store@, path@, user@) {
            Ok(v) => response matches Ok(x) && x@ == v,
            Err(e) => response matches Err(x) && x == e,
        },
{
    match check_owner(store, &path, user) {
        Err(e) => {
            return Err(e);
        },
        Ok(false) => {
            return Ok(HttpResponse::new(STATUS_UNAUTHORIZED, String::new()));
        },
        Ok(true) => {},
    }
    let event = match store.get_object(
        path.principal.as_str(),
        path.cal_id.as_str(),
        path.object_id.as_str(),
    ) {
        Ok(event) => event,
        Err(e) => {
            return Err(e.into_error());
        },
    };
    let response = HttpResponse::new(200, event.get_ics().to_owned()).insert_header(
        "ETag",
        event.get_etag(),
    ).insert_header("Content-Type", "text/calendar".to_owned());
    assert(response@.headers =~= seq![
        ("ETag"@, spec_etag(event@)),
        ("Content-Type"@, "text/calendar"@),
    ]);
    Ok(response)
}

/// Whether a PUT may not go on because the object must not exist yet and
/// does: `Ok(true)` is the conflict.
pub open spec fn create_only_conflict<C: CalendarStore>(
    store: C::V,
    path: PathModel,
    if_none_match: Option<Seq<char>>,
) -> Result<bool, Error> {
    if if_none_match == Some("*"@) {
        match C::spec_get_object(store, path.principal, path.cal_id, path.object_id) {
            Ok(_) => Ok(true),
            Err(StoreError::NotFound) => Ok(false),
            Err(e) => Err(e.spec_into_error()),
        }
    } else {
        Ok(false)
    }
}

/// The store after a PUT, and the answer: the body becomes the object of
/// the URL, unless the request asks for creation only and the object exists.
pub open spec fn spec_put_event<C: CalendarStore>(
    store: C::V,
    path: PathModel,
    body: Seq<char>,
    user: Seq<char>,
    if_none_match: Option<Seq<char>>,
) -> (C::V, Result<ResponseModel, Error>) {
    match owns_calendar::<C>(store, path, user) {
        Err(e) => (store, Err(e)),
        Ok(false) => (store, Ok(unauthorized())),
        Ok(true) => match create_only_conflict::<C>(store, path, if_none_match) {
            Err(e) => (store, Err(e)),
            Ok(true) => (
                store,
                Ok(
                    ResponseModel {
                        status: 409,
                        headers: seq![],
                        body: "Resource with this URI already exists"@,
                    },
                ),
            ),
            Ok(false) => {
                let (after, done) = C::spec_put_object(
                    store,
                    path.principal,
                    path.cal_id,
                    ObjectModel { id: path.object_id, ics: body },
                );
                match done {
                    Ok(()) => (after, Ok(ResponseModel { status: 201, headers: seq![], body: seq![] })),
                    Err(e) => (after, Err(e.spec_into_error())),
                }
            },
        },
    }
}

/// Answers a PUT on a calendar object. `if_none_match` is the value of the
/// header of that name, if the request has one.
pub fn put_event<C: CalendarStore>(
    store: &mut C,
    path: CalendarObjectPathComponents,
    body: String,
    user: &User,
    if_none_match: Option<&str>,
) -> (response: Result<HttpResponse, Error>)
    ensures
        ({
            let (after, answer) = spec_put_event::<C>(
                old(store)@,
                path@,
                body@,
                user@,
                match if_none_match {
                    Some(v) => Some(v@),
                    None => None,
                },
            );
            &&& final(store)@ == after
            &&& match answer {
                Ok(v) => response matches Ok(x) && x@ == v,
                Err(e) => response matches Err(x) && x == e,
            }
        }),
{
    match check_owner(store, &path, user) {
        Err(e) => {
            return Err(e);
        },
        Ok(false) => {
            return Ok(HttpResponse::new(STATUS_UNAUTHORIZED, String::new()));
        },
        Ok(true) => {},
    }
    let create_only = match if_none_match {
        Some(v) => str_eq(v, "*"),
        None => false,
    };
    if create_only {
        // Only write if not existing.
        match store.get_object(
            path.principal.as_str(),
            path.cal_id.as_str(),
            path.object_id.as_str(),
        ) {
            Ok(_) => {
                return Ok(
                    HttpResponse::new(409, "Resource with this URI already exists".to_owned()),
                );
            },
            Err(StoreError::NotFound) => {},
            Err(err) => {
                return Err(err.into_error());
            },
        }
    }
    let CalendarObjectPathComponents { principal, cal_id, object_id } = path;
    let object = CalendarObject::from_ics(object_id, body);
    match store.put_object(principal, cal_id, object) {
        Ok(()) => Ok(HttpResponse::new(STATUS_CREATED, String::new())),
        Err(e) => Err(e.into_error()),
    }
}

/// What a GET answers for an object with the given text.
pub open spec fn found_response(object: ObjectModel) -> ResponseModel {
    ResponseModel {
        status: 200,
        headers: seq![("ETag"@, spec_etag(object)), ("Content-Type"@, "text/calendar"@)],
        body: object.ics,
    }
}

/// After a PUT that created an object, a GET of the same address by the
/// same identity gives back the body that was put, with the entity tag of
/// that body, every time.
pub proof fn lemma_put_then_get<C: CalendarStore>(
    store: C::V,
    path: PathModel,
    body: Seq<char>,
    user: Seq<char>,
    if_none_match: Option<Seq<char>>,
)
    requires
        spec_put_event::<C>(store, path, body, user, if_none_match).1 is Ok,
        spec_put_event::<C>(store, path, body, user, if_none_match).1->Ok_0.status == 201,
    ensures
        spec_get_event::<C>(
            spec_put_event::<C>(store, path, body, user, if_none_match).0,
            path,
            user,
        ) == Ok::<ResponseModel, Error>(
            found_response(ObjectModel { id: path.object_id, ics: body }),
        ),
{
    let object = ObjectModel { id: path.object_id, ics: body };
    C::put_is_found(store, path.principal, path.cal_id, object);
    C::put_keeps_calendars(store, path.principal, path.cal_id, object, path.principal, path.cal_id);
}

/// A PUT that asks for creation only, on an address where the owner
/// already has an object, is a conflict and leaves the store as it is.
pub proof fn lemma_put_on_existing_is_a_conflict<C: CalendarStore>(
    store: C::V,
    path: PathModel,
    body: Seq<char>,
    user: Seq<char>,
)
    requires
        owns_calendar::<C>(store, path, user) == Ok::<bool, Error>(true),
        C::spec_get_object(store, path.principal, path.cal_id, path.object_id) is Ok,
    ensures
        spec_put_event::<C>(store, path, body, user, Some("*"@)).0 == store,
        spec_put_event::<C>(store, path, body, user, Some("*"@)).1 is Ok,
        spec_put_event::<C>(store, path, body, user, Some("*"@)).1->Ok_0.status == 409,
{
}

} // verus!
