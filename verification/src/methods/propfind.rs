//! PROPFIND: reading properties.

use vstd::prelude::*;
use crate::elements::{
    PropElement, PropfindElement, PropfindModel, PropfindType, Propname, spec_parse_propfind,
};
use crate::error::Error;
use crate::http::{HttpResponse, ResponseModel};
use crate::multistatus::{
    MultistatusElement, PropstatElement, PropstatWrapper, ResponseElement, STATUS_NOT_FOUND,
    STATUS_OK, TagList,
};
use crate::multistatus_xml::{
    group_events, multistatus_events, multistatus_of, multistatus_text, names_events, propstat_of,
    propstats_events, response_events, response_of, responses_events, values_events,
};
use crate::resource::{PropName, Resource, ResourceService, static_views, value_views};
use crate::text::views;
use crate::xml::event::EventModel;
use crate::xml::typed::XmlType;

verus! {

/// The names among the first `n` of `tags` that the resource kind knows.
pub open spec fn known_names<N: PropName>(tags: Seq<Seq<char>>, n: nat) -> Seq<N>
    decreases n,
{
    if n == 0 {
        seq![]
    } else {
        let before = known_names::<N>(tags, (n - 1) as nat);
        match N::spec_from_str(tags[n - 1]) {
            Some(name) => before.push(name),
            None => before,
        }
    }
}

/// The tags among the first `n` of `tags` that the resource kind does not
/// know.
pub open spec fn unknown_tags<N: PropName>(tags: Seq<Seq<char>>, n: nat) -> Seq<Seq<char>>
    decreases n,
{
    if n == 0 {
        seq![]
    } else {
        let before = unknown_tags::<N>(tags, (n - 1) as nat);
        match N::spec_from_str(tags[n - 1]) {
            Some(_) => before,
            None => before.push(tags[n - 1]),
        }
    }
}

/// The values of the first `n` of `names`, in order, or the first failure.
pub open spec fn values_of<R: Resource>(
    resource: R::V,
    prefix: Seq<char>,
    names: Seq<R::PropName>,
    n: nat,
) -> Result<Seq<<R::Prop as View>::V>, Error>
    decreases n,
{
    if n == 0 {
        Ok(seq![])
    } else {
        match values_of::<R>(resource, prefix, names, (n - 1) as nat) {
            Ok(values) => match R::spec_get_prop(resource, prefix, names[n - 1]) {
                Ok(value) => Ok(values.push(value)),
                Err(e) => Err(e),
            },
            Err(e) => Err(e),
        }
    }
}

/// The tags that a query asks the values of: all of the resource kind's, or
/// the listed ones.
pub open spec fn asked_tags<N: PropName>(query: PropfindModel) -> Seq<Seq<char>> {
    match query {
        PropfindModel::Prop(list) => list,
        _ => N::spec_variants(),
    }
}

/// The groups of one entry: the values found, then, if any, the tags that
/// the resource kind does not know.
pub open spec fn is_found_and_missing<T: View>(
    propstat: Seq<PropstatWrapper<T>>,
    found: Seq<T::V>,
    missing: Seq<Seq<char>>,
) -> bool {
    &&& propstat.len() == if missing.len() == 0 {
        1nat
    } else {
        2nat
    }
    &&& propstat[0].is_values(STATUS_OK, found)
    &&& missing.len() > 0 ==> propstat[1].is_names(STATUS_NOT_FOUND, missing)
}

/// Whether `response` answers `query` for `resource` at `path`.
pub open spec fn answers<R: Resource>(
    response: ResponseElement<R::Prop>,
    resource: R::V,
    path: Seq<char>,
    prefix: Seq<char>,
    query: PropfindModel,
) -> bool {
    &&& response.href@ == path
    &&& response.status is None
    &&& match query {
        PropfindModel::Propname => {
            &&& response.propstat.len() == 1
            &&& response.propstat[0].is_names(STATUS_OK, R::PropName::spec_variants())
        },
        _ => {
            let tags = asked_tags::<R::PropName>(query);
            let names = known_names::<R::PropName>(tags, tags.len());
            &&& values_of::<R>(resource, prefix, names, names.len()) matches Ok(found)
            &&& is_found_and_missing(
                response.propstat@,
                found,
                unknown_tags::<R::PropName>(tags, tags.len()),
            )
        },
    }
}

/// The failure of a query, if reading one of the properties asked for fails.
pub open spec fn fails<R: Resource>(
    resource: R::V,
    prefix: Seq<char>,
    query: PropfindModel,
) -> Option<Error> {
    match query {
        PropfindModel::Propname => None,
        _ => {
            let tags = asked_tags::<R::PropName>(query);
            let names = known_names::<R::PropName>(tags, tags.len());
            match values_of::<R>(resource, prefix, names, names.len()) {
                Ok(_) => None,
                Err(e) => Some(e),
            }
        },
    }
}

/// Splits tags into the names that the resource kind knows and the tags that
/// it does not, each in request order.
pub fn split_tags<N: PropName>(tags: &Vec<String>) -> (split: (Vec<N>, Vec<String>))
    ensures
        split.0@ == known_names::<N>(views(tags@), tags.len() as nat),
        views(split.1@) == unknown_tags::<N>(views(tags@), tags.len() as nat),
{
    let mut valid: Vec<N> = Vec::new();
    let mut invalid: Vec<String> = Vec::new();
    let mut i: usize = 0;
    assert(views(invalid@) =~= seq![]);
    while i < tags.len()
        invariant
            i <= tags.len(),
            valid@ == known_names::<N>(views(tags@), i as nat),
            views(invalid@) == unknown_tags::<N>(views(tags@), i as nat),
        decreases tags.len() - i,
    {
        let ghost before = views(invalid@);
        match N::from_str(tags[i].as_str()) {
            Some(name) => {
                valid.push(name);
            },
            None => {
                invalid.push(tags[i].clone());
                assert(views(invalid@) =~= before.push(tags[i as int]@));
            },
        }
        i = i + 1;
    }
    (valid, invalid)
}

/// Reads the properties of a list of names, in order.
pub fn get_props<R: Resource>(resource: &R, prefix: &str, names: &Vec<R::PropName>) -> (values:
    Result<Vec<R::Prop>, Error>)
    ensures
        match values_of::<R>(resource@, prefix@, names@, names.len() as nat) {
            Ok(found) => values matches Ok(v) && value_views(v@) == found,
            Err(e) => values matches Err(x) && x == e,
        },
{
    let mut values: Vec<R::Prop> = Vec::new();
    let mut i: usize = 0;
    assert(value_views(values@) =~= seq![]);
    while i < names.len()
        invariant
            i <= names.len(),
            values_of::<R>(resource@, prefix@, names@, i as nat) == Ok::<
                Seq<<R::Prop as View>::V>,
                Error,
            >(value_views(values@)),
        decreases names.len() - i,
    {
        let ghost before = value_views(values@);
        match resource.get_prop(prefix, &names[i]) {
            Ok(value) => {
                values.push(value);
                assert(value_views(values@) =~= before.push(value@));
            },
            Err(e) => {
                proof {
                    lemma_values_failure_stays::<R>(
                        resource@,
                        prefix@,
                        names@,
                        (i + 1) as nat,
                        names.len() as nat,
                    );
                }
                return Err(e);
            },
        }
        i = i + 1;
    }
    Ok(values)
}

/// Once reading has failed, reading further changes nothing.
pub proof fn lemma_values_failure_stays<R: Resource>(
    resource: R::V,
    prefix: Seq<char>,
    names: Seq<R::PropName>,
    n: nat,
    m: nat,
)
    requires
        n <= m,
        values_of::<R>(resource, prefix, names, n) is Err,
    ensures
        values_of::<R>(resource, prefix, names, m) == values_of::<R>(resource, prefix, names, n),
    decreases m,
{
    if n < m {
        lemma_values_failure_stays::<R>(resource, prefix, names, n, (m - 1) as nat);
    }
}

/// Copies static tags into owned strings.
pub fn owned_tags(tags: &Vec<&'static str>) -> (owned: Vec<String>)
    ensures
        views(owned@) == static_views(tags@),
{
    let mut owned: Vec<String> = Vec::new();
    let mut i: usize = 0;
    while i < tags.len()
        invariant
            i <= tags.len(),
            owned.len() == i,
            forall|j: int| 0 <= j < i ==> (#[trigger] owned@[j])@ == tags@[j]@,
        decreases tags.len() - i,
    {
        owned.push(tags[i].to_owned());
        i = i + 1;
    }
    assert(views(owned@) =~= static_views(tags@));
    owned
}

/// The tags of a `<prop>` element.
pub fn prop_tags(list: &PropElement) -> (tags: Vec<String>)
    ensures
        views(tags@) == list@,
{
    let mut tags: Vec<String> = Vec::new();
    let mut i: usize = 0;
    while i < list.0.len()
        invariant
            i <= list.0.len(),
            tags.len() == i,
            forall|j: int| 0 <= j < i ==> (#[trigger] tags@[j])@ == list.0@[j].0@,
        decreases list.0.len() - i,
    {
        tags.push(list.0[i].0.clone());
        i = i + 1;
    }
    assert(views(tags@) =~= list@);
    tags
}

/// Answers a query for one resource: the entry of the resource at `path`.
///
/// A query for names lists the bare names of the resource kind. Any other
/// query reports the value of every property asked for that the kind knows,
/// under OK, and every other tag asked for under Not Found.
pub fn propfind<R: Resource>(resource: &R, path: &str, prefix: &str, query: &PropfindType) -> (response:
    Result<ResponseElement<R::Prop>, Error>)
    ensures
        match fails::<R>(resource@, prefix@, query@) {
            Some(e) => response matches Err(x) && x == e,
            None => response matches Ok(r) && answers::<R>(r, resource@, path@, prefix@, query@),
        },
{
    let mut propstat: Vec<PropstatWrapper<R::Prop>> = Vec::new();
    let tags = match query {
        PropfindType::Propname => {
            let names = owned_tags(&R::list_props());
            propstat.push(
                PropstatWrapper::TagList(
                    PropstatElement { prop: TagList::from(names), status: STATUS_OK },
                ),
            );
            return Ok(ResponseElement { href: path.to_owned(), status: None, propstat });
        },
        PropfindType::Allprop => owned_tags(&R::list_props()),
        PropfindType::Prop(list) => prop_tags(list),
    };
    let (valid, invalid) = split_tags::<R::PropName>(&tags);
    let found = match get_props(resource, prefix, &valid) {
        Ok(found) => found,
        Err(e) => {
            return Err(e);
        },
    };
    propstat.push(PropstatWrapper::Normal(PropstatElement { prop: found, status: STATUS_OK }));
    if !invalid.is_empty() {
        propstat.push(
            PropstatWrapper::TagList(
                PropstatElement { prop: TagList::from(invalid), status: STATUS_NOT_FOUND },
            ),
        );
    }
    Ok(ResponseElement { href: path.to_owned(), status: None, propstat })
}

/// The group of the tags that the resource kind does not know, if there
/// are any.
pub open spec fn missing_events(missing: Seq<Seq<char>>) -> Seq<EventModel> {
    if missing.len() == 0 {
        seq![]
    } else {
        propstat_of(names_events(missing, missing.len()), STATUS_NOT_FOUND)
    }
}

/// The events of an entry at `path` with the values `found` under OK and,
/// if there are any, the tags `missing` under Not Found; `None` where a
/// value cannot be written.
pub open spec fn found_and_missing_events<T: XmlType>(
    path: Seq<char>,
    found: Seq<T::V>,
    missing: Seq<Seq<char>>,
) -> Option<Seq<EventModel>> {
    match values_events::<T>(found, found.len()) {
        None => None,
        Some(props) => Some(
            response_of(path, None, propstat_of(props, STATUS_OK) + missing_events(missing)),
        ),
    }
}

/// The events of the entry of a resource that answers a query; `None`
/// where a property cannot be read or a value cannot be written.
pub open spec fn answer_events<R: Resource>(
    resource: R::V,
    path: Seq<char>,
    prefix: Seq<char>,
    query: PropfindModel,
) -> Option<Seq<EventModel>> {
    match query {
        PropfindModel::Propname => Some(
            response_of(
                path,
                None,
                propstat_of(
                    names_events(R::PropName::spec_variants(), R::PropName::spec_variants().len()),
                    STATUS_OK,
                ),
            ),
        ),
        _ => {
            let tags = asked_tags::<R::PropName>(query);
            let names = known_names::<R::PropName>(tags, tags.len());
            match values_of::<R>(resource, prefix, names, names.len()) {
                Err(_) => None,
                Ok(found) => found_and_missing_events::<R::Prop>(
                    path,
                    found,
                    unknown_tags::<R::PropName>(tags, tags.len()),
                ),
            }
        },
    }
}

/// An entry with values under OK and, if there are any, tags under Not
/// Found is written as just that.
pub proof fn lemma_found_and_missing_are_written<T: XmlType>(
    response: ResponseElement<T>,
    found: Seq<T::V>,
    missing: Seq<Seq<char>>,
)
    requires
        response.status is None,
        is_found_and_missing(response.propstat@, found, missing),
    ensures
        response_events(response) == found_and_missing_events::<T>(
            response.href@,
            found,
            missing,
        ),
{
    reveal_with_fuel(propstats_events, 3);
    let groups = response.propstat@;
    let first = groups[0]->Normal_0;
    assert(first.prop@.map_values(|t: T| t@) == found);
    assert(first.prop.len() == found.len());
    assert(group_events(groups[0]) == values_events::<T>(found, found.len()));
    match values_events::<T>(found, found.len()) {
        None => {
            lemma_groups_failure_stays(groups, 1, groups.len());
        },
        Some(props) => {
            let ok = propstat_of(props, STATUS_OK);
            assert(Seq::<EventModel>::empty() + ok =~= ok);
            if missing.len() == 0 {
                assert(ok + Seq::<EventModel>::empty() =~= ok);
            } else {
                assert(group_events(groups[1]) == Some(names_events(missing, missing.len())));
            }
        },
    }
}

/// An entry that answers a query is written as the events of the answer.
pub proof fn lemma_answer_is_written<R: Resource>(
    response: ResponseElement<R::Prop>,
    resource: R::V,
    path: Seq<char>,
    prefix: Seq<char>,
    query: PropfindModel,
)
    requires
        answers::<R>(response, resource, path, prefix, query),
    ensures
        response_events(response) == answer_events::<R>(resource, path, prefix, query),
{
    reveal_with_fuel(propstats_events, 3);
    let groups = response.propstat@;
    match query {
        PropfindModel::Propname => {
            let names = R::PropName::spec_variants();
            assert(group_events(groups[0]) == Some(names_events(names, names.len())));
            assert(propstats_events(groups, 1) == Some(
                Seq::<EventModel>::empty() + propstat_of(
                    names_events(names, names.len()),
                    STATUS_OK,
                ),
            ));
            assert(Seq::<EventModel>::empty() + propstat_of(
                names_events(names, names.len()),
                STATUS_OK,
            ) =~= propstat_of(names_events(names, names.len()), STATUS_OK));
        },
        _ => {
            let tags = asked_tags::<R::PropName>(query);
            let names = known_names::<R::PropName>(tags, tags.len());
            let missing = unknown_tags::<R::PropName>(tags, tags.len());
            let found = values_of::<R>(resource, prefix, names, names.len())->Ok_0;
            lemma_found_and_missing_are_written(response, found, missing);
        },
    }
}

/// Once a group cannot be written, the groups cannot.
pub proof fn lemma_groups_failure_stays<T: XmlType>(
    groups: Seq<PropstatWrapper<T>>,
    n: nat,
    m: nat,
)
    requires
        n <= m,
        propstats_events(groups, n) is None,
    ensures
        propstats_events(groups, m) is None,
    decreases m,
{
    if n < m {
        lemma_groups_failure_stays(groups, n, (m - 1) as nat);
    }
}

pub const STATUS_MULTI_STATUS: u16 = 207;

/// Whether a response is a multistatus with the given body.
pub open spec fn is_multistatus(response: ResponseModel, body: Seq<char>) -> bool {
    response == (ResponseModel {
        status: 207,
        headers: seq![("Content-Type"@, "text/xml"@)],
        body,
    })
}

/// A multistatus response with the given body.
pub fn multistatus_response(body: String) -> (response: HttpResponse)
    ensures
        is_multistatus(response@, body@),
{
    let response = HttpResponse::new(STATUS_MULTI_STATUS, body).insert_header(
        "Content-Type",
        "text/xml".to_owned(),
    );
    assert(response@.headers =~= seq![("Content-Type"@, "text/xml"@)]);
    response
}

/// The answer to a PROPFIND request on the resource of a session: a body
/// that cannot be decoded fails the request, then a resource that cannot be
/// fetched, then a property that cannot be read.
pub open spec fn spec_route_propfind<S: ResourceService>(
    service: S::V,
    body: Seq<char>,
    prefix: Seq<char>,
) -> Result<(<S::Resource as View>::V, PropfindModel), Error> {
    match spec_parse_propfind(body) {
        Err(e) => Err(Error::XmlDeserializationError(e)),
        Ok(query) => match S::spec_get_resource(service) {
            Err(e) => Err(e),
            Ok(resource) => match fails::<S::Resource>(resource, prefix, query) {
                Some(e) => Err(e),
                None => Ok((resource, query)),
            },
        },
    }
}

/// Answers a PROPFIND request on the resource of a session with a
/// multistatus of the entry of the resource. An entry that cannot be
/// written is an internal failure.
pub fn route_propfind<S: ResourceService>(service: &S, body: &str, path: &str, prefix: &str) -> (response:
    Result<HttpResponse, Error>)
    ensures
        match spec_route_propfind::<S>(service@, body@, prefix@) {
            Err(e) => response matches Err(x) && x == e,
            Ok((resource, query)) => match answer_events::<S::Resource>(
                resource,
                path@,
                prefix@,
                query,
            ) {
                Some(entry) => response matches Ok(r) && is_multistatus(r@, multistatus_text(entry)),
                None => response matches Err(e) && e == Error::InternalError,
            },
        },
{
    let element = match PropfindElement::parse_str(body) {
        Ok(element) => element,
        Err(e) => {
            return Err(Error::XmlDeserializationError(e));
        },
    };
    let resource = match service.get_resource() {
        Ok(resource) => resource,
        Err(e) => {
            return Err(e);
        },
    };
    let entry = match propfind(&resource, path, prefix, &element.prop) {
        Ok(entry) => entry,
        Err(e) => {
            return Err(e);
        },
    };
    write_answer::<S::Resource>(entry, Ghost(resource@), Ghost(path@), Ghost(prefix@), Ghost(element.prop@))
}

/// Writes the multistatus of one entry that answers a query.
fn write_answer<R: Resource>(
    entry: ResponseElement<R::Prop>,
    Ghost(resource): Ghost<R::V>,
    Ghost(path): Ghost<Seq<char>>,
    Ghost(prefix): Ghost<Seq<char>>,
    Ghost(query): Ghost<PropfindModel>,
) -> (response: Result<HttpResponse, Error>)
    requires
        answers::<R>(entry, resource, path, prefix, query),
    ensures
        match answer_events::<R>(resource, path, prefix, query) {
            Some(events) => response matches Ok(r) && is_multistatus(r@, multistatus_text(events)),
            None => response matches Err(e) && e == Error::InternalError,
        },
{
    proof {
        lemma_answer_is_written::<R>(entry, resource, path, prefix, query);
        reveal_with_fuel(responses_events, 2);
    }
    let mut responses: Vec<ResponseElement<R::Prop>> = Vec::new();
    responses.push(entry);
    let multistatus: MultistatusElement<R::Prop, R::Prop> = MultistatusElement {
        responses,
        member_responses: Vec::new(),
    };
    proof {
        match response_events(entry) {
            Some(events) => {
                assert(Seq::<EventModel>::empty() + events =~= events);
                assert(events + Seq::<EventModel>::empty() =~= events);
                assert(multistatus_events(multistatus) == Some(multistatus_of(events)));
            },
            None => {
                assert(multistatus_events(multistatus) is None);
            },
        }
    }
    match multistatus.serialize() {
        Ok(text) => Ok(multistatus_response(text)),
        Err(_) => Err(Error::InternalError),
    }
}

/// Deletes the resource of a session and answers with an empty OK.
pub fn route_delete<S: ResourceService>(service: &mut S, use_trashbin: bool) -> (response: Result<
    HttpResponse,
    Error,
>)
    ensures
        ({
            let (after, done) = S::spec_delete_resource(old(service)@, use_trashbin);
            &&& final(service)@ == after
            &&& match done {
                Ok(()) => response matches Ok(r) && r@ == (ResponseModel {
                    status: 200,
                    headers: seq![],
                    body: seq![],
                }),
                Err(e) => response matches Err(x) && x == e,
            }
        }),
{
    match service.delete_resource(use_trashbin) {
        Ok(()) => Ok(HttpResponse::new(200, String::new())),
        Err(e) => Err(e),
    }
}

} // verus!
