//! REPORT on a calendar collection.
//!
//! Filters are decoded and carried along, and not yet applied: a query
//! reports every object of the calendar.

use vstd::prelude::*;
use vstd::string::{StringExecFns, StrSliceExecFns};
use crate::calendar::report_request::{
    CalendarMultigetRequest, CalendarQueryRequest, ReportModel, ReportRequest, spec_parse_report,
};
use crate::calendar_object::resource::{
    CalendarObjectProp, CalendarObjectPropModel, CalendarObjectPropName, CalendarObjectResource,
    CalendarObjectResourceModel, lemma_props_are_canonical, object_id_of, strip_ics,
};
use crate::elements::{PropfindModel, PropfindType};
use crate::error::Error;
use crate::http::HttpResponse;
use crate::methods::propfind::{
    answer_events, asked_tags, is_multistatus, known_names, lemma_answer_is_written,
    multistatus_response, propfind, values_of,
};
use crate::multistatus::{MultistatusElement, ResponseElement, STATUS_NOT_FOUND};
use crate::multistatus_xml::{
    multistatus_text, response_events, response_of, responses_events, values_events,
};
use crate::resource::{Resource, User};
use crate::store::{CalendarObject, CalendarStore, ObjectModel, StoreError};
use crate::text::{str_eq, views};
use crate::xml::event::EventModel;
use crate::xml::reader::xml_events;
use crate::xml::typed::XmlType;

verus! {

/// What a report has to say of one object: the object at its address, or
/// that nothing is found at an address.
#[derive(Debug)]
pub enum ReportEntry {
    Found { path: String, object: CalendarObject },
    Missing { href: String },
}

pub enum ReportEntryModel {
    Found { path: Seq<char>, object: ObjectModel },
    Missing { href: Seq<char> },
}

impl View for ReportEntry {
    type V = ReportEntryModel;

    open spec fn view(&self) -> ReportEntryModel {
        match self {
            ReportEntry::Found { path, object } => ReportEntryModel::Found {
                path: path@,
                object: object@,
            },
            ReportEntry::Missing { href } => ReportEntryModel::Missing { href: href@ },
        }
    }
}

/// The views of a list of entries.
pub open spec fn entry_views(entries: Seq<ReportEntry>) -> Seq<ReportEntryModel> {
    entries.map_values(|e: ReportEntry| e@)
}

/// Where the last segment of the first `n` characters of an address
/// starts: after the last slash.
pub open spec fn segment_start(href: Seq<char>, n: nat) -> int
    decreases n,
{
    if n == 0 {
        0
    } else if href[n - 1] == '/' {
        n as int
    } else {
        segment_start(href, (n - 1) as nat)
    }
}

/// The last segment of an address.
pub open spec fn last_segment(href: Seq<char>) -> Seq<char> {
    href.skip(segment_start(href, href.len()))
}

/// The last segment of an address.
pub fn last_segment_of(href: &str) -> (segment: String)
    ensures
        segment@ == last_segment(href@),
{
    let total = href.unicode_len();
    let mut start: usize = 0;
    let mut n: usize = 0;
    for c in it: href.chars()
        invariant
            it.seq() == href@,
            href@.len() == total,
            n == it.index(),
            start == segment_start(href@, n as nat),
            start <= n,
    {
        assert(c == href@[it.index()]);
        n = n + 1;
        if c == '/' {
            start = n;
        }
    }
    href.substring_char(start, total).to_owned()
}

/// The entry of one address of a multiget: the object that the last
/// segment names, if the calendar holds it.
pub open spec fn multiget_entry<C: CalendarStore>(
    store: C::V,
    principal: Seq<char>,
    cid: Seq<char>,
    href: Seq<char>,
) -> Result<ReportEntryModel, Error> {
    match C::spec_get_object(store, principal, cid, object_id_of(last_segment(href))) {
        Ok(object) => Ok(ReportEntryModel::Found { path: href, object }),
        Err(StoreError::NotFound) => Ok(ReportEntryModel::Missing { href }),
        Err(e) => Err(e.spec_into_error()),
    }
}

/// The entries of the first `n` addresses, in order; a store that fails
/// ends the report.
pub open spec fn multiget_entries<C: CalendarStore>(
    store: C::V,
    principal: Seq<char>,
    cid: Seq<char>,
    hrefs: Seq<Seq<char>>,
    n: nat,
) -> Result<Seq<ReportEntryModel>, Error>
    decreases n,
{
    if n == 0 {
        Ok(seq![])
    } else {
        match multiget_entries::<C>(store, principal, cid, hrefs, (n - 1) as nat) {
            Err(e) => Err(e),
            Ok(before) => match multiget_entry::<C>(store, principal, cid, hrefs[n - 1]) {
                Ok(entry) => Ok(before.push(entry)),
                Err(e) => Err(e),
            },
        }
    }
}

/// A multiget has one entry for each address, in the order of the
/// addresses: the object at the address, or that nothing is found there.
pub proof fn lemma_multiget_has_one_entry_for_each_address<C: CalendarStore>(
    store: C::V,
    principal: Seq<char>,
    cid: Seq<char>,
    hrefs: Seq<Seq<char>>,
    n: nat,
)
    requires
        n <= hrefs.len(),
        multiget_entries::<C>(store, principal, cid, hrefs, n) is Ok,
    ensures
        multiget_entries::<C>(store, principal, cid, hrefs, n)->Ok_0.len() == n,
        forall|i: int|
            0 <= i < n ==> match (#[trigger] multiget_entries::<C>(
                store,
                principal,
                cid,
                hrefs,
                n,
            )->Ok_0[i]) {
                ReportEntryModel::Found { path, object } => path == hrefs[i]
                    && C::spec_get_object(store, principal, cid, object_id_of(last_segment(hrefs[i])))
                    == Ok::<ObjectModel, StoreError>(object),
                ReportEntryModel::Missing { href } => href == hrefs[i] && C::spec_get_object(
                    store,
                    principal,
                    cid,
                    object_id_of(last_segment(hrefs[i])),
                ) == Err::<ObjectModel, StoreError>(StoreError::NotFound),
            },
    decreases n,
{
    if n > 0 {
        lemma_multiget_has_one_entry_for_each_address::<C>(
            store,
            principal,
            cid,
            hrefs,
            (n - 1) as nat,
        );
    }
}

/// The address of an object of the calendar at `request_path`.
pub open spec fn object_path(request_path: Seq<char>, id: Seq<char>) -> Seq<char> {
    request_path + seq!['/'] + id
}

/// The entries of a query: every object of the calendar, in the order of
/// the store.
pub open spec fn query_entries<C: CalendarStore>(
    store: C::V,
    cid: Seq<char>,
    request_path: Seq<char>,
) -> Result<Seq<ReportEntryModel>, Error> {
    match C::spec_get_events(store, cid) {
        Ok(objects) => Ok(
            Seq::new(
                objects.len(),
                |i: int|
                    ReportEntryModel::Found {
                        path: object_path(request_path, objects[i].id),
                        object: objects[i],
                    },
            ),
        ),
        Err(e) => Err(e.spec_into_error()),
    }
}

/// The entries of a report.
pub open spec fn report_entries<C: CalendarStore>(
    store: C::V,
    principal: Seq<char>,
    cid: Seq<char>,
    request_path: Seq<char>,
    report: ReportModel,
) -> Result<Seq<ReportEntryModel>, Error> {
    match report {
        ReportModel::CalendarQuery { .. } => query_entries::<C>(store, cid, request_path),
        ReportModel::CalendarMultiget { href, .. } => multiget_entries::<C>(
            store,
            principal,
            cid,
            href,
            href.len(),
        ),
    }
}

/// Once the store has failed, further addresses change nothing.
proof fn lemma_multiget_failure_stays<C: CalendarStore>(
    store: C::V,
    principal: Seq<char>,
    cid: Seq<char>,
    hrefs: Seq<Seq<char>>,
    n: nat,
    m: nat,
)
    requires
        n <= m,
        multiget_entries::<C>(store, principal, cid, hrefs, n) is Err,
    ensures
        multiget_entries::<C>(store, principal, cid, hrefs, m) == multiget_entries::<C>(
            store,
            principal,
            cid,
            hrefs,
            n,
        ),
    decreases m,
{
    if n < m {
        lemma_multiget_failure_stays::<C>(store, principal, cid, hrefs, n, (m - 1) as nat);
    }
}

/// Fetches the objects of a calendar, each with its address below the
/// address of the calendar.
pub fn calendar_members<C: CalendarStore>(cid: &str, request_path: &str, store: &C) -> (entries:
    Result<Vec<ReportEntry>, Error>)
    ensures
        match query_entries::<C>(store@, cid@, request_path@) {
            Ok(list) => entries matches Ok(v) && entry_views(v@) == list,
            Err(e) => entries matches Err(x) && x == e,
        },
{
    let objects = match store.get_events(cid) {
        Ok(objects) => objects,
        Err(e) => {
            return Err(e.into_error());
        },
    };
    let ghost models = objects@.map_values(|o: CalendarObject| o@);
    let mut entries: Vec<ReportEntry> = Vec::new();
    let mut i: usize = 0;
    while i < objects.len()
        invariant
            i <= objects.len(),
            models == objects@.map_values(|o: CalendarObject| o@),
            entries.len() == i,
            forall|k: int|
                0 <= k < i ==> (#[trigger] entries[k])@ == (ReportEntryModel::Found {
                    path: object_path(request_path@, models[k].id),
                    object: models[k],
                }),
        decreases objects.len() - i,
    {
        proof {
            reveal_strlit("/");
        }
        assert(models[i as int] == objects[i as int]@);
        let mut path = request_path.to_owned();
        path.append("/");
        path.append(objects[i].get_uid());
        assert(path@ =~= object_path(request_path@, models[i as int].id));
        entries.push(ReportEntry::Found { path, object: objects[i].duplicate() });
        i = i + 1;
    }
    assert(entry_views(entries@) =~= query_entries::<C>(store@, cid@, request_path@)->Ok_0);
    Ok(entries)
}

/// Fetches the objects of a calendar query. The filter is not applied.
pub fn get_events_calendar_query<C: CalendarStore>(
    cal_query: &CalendarQueryRequest,
    cid: &str,
    request_path: &str,
    store: &C,
) -> (entries: Result<Vec<ReportEntry>, Error>)
    ensures
        match query_entries::<C>(store@, cid@, request_path@) {
            Ok(list) => entries matches Ok(v) && entry_views(v@) == list,
            Err(e) => entries matches Err(x) && x == e,
        },
{
    calendar_members(cid, request_path, store)
}

/// Fetches the objects at the addresses of a multiget, in the order of the
/// addresses. An address at which nothing is found gets an entry that says
/// so.
pub fn get_events_calendar_multiget<C: CalendarStore>(
    cal_query: &CalendarMultigetRequest,
    principal: &str,
    cid: &str,
    store: &C,
) -> (entries: Result<Vec<ReportEntry>, Error>)
    ensures
        match multiget_entries::<C>(
            store@,
            principal@,
            cid@,
            views(cal_query.href@),
            cal_query.href.len() as nat,
        ) {
            Ok(list) => entries matches Ok(v) && entry_views(v@) == list,
            Err(e) => entries matches Err(x) && x == e,
        },
{
    let ghost hrefs = views(cal_query.href@);
    let mut entries: Vec<ReportEntry> = Vec::new();
    let mut i: usize = 0;
    assert(entry_views(entries@) =~= seq![]);
    while i < cal_query.href.len()
        invariant
            i <= cal_query.href.len(),
            hrefs == views(cal_query.href@),
            multiget_entries::<C>(store@, principal@, cid@, hrefs, i as nat) == Ok::<
                Seq<ReportEntryModel>,
                Error,
            >(entry_views(entries@)),
        decreases cal_query.href.len() - i,
    {
        let ghost before = entry_views(entries@);
        let href = &cal_query.href[i];
        assert(hrefs[i as int] == href@);
        let uid = strip_ics(last_segment_of(href.as_str()));
        let entry = match store.get_object(principal, cid, uid.as_str()) {
            Ok(object) => ReportEntry::Found { path: href.clone(), object },
            Err(StoreError::NotFound) => ReportEntry::Missing { href: href.clone() },
            Err(e) => {
                proof {
                    lemma_multiget_failure_stays::<C>(
                        store@,
                        principal@,
                        cid@,
                        hrefs,
                        (i + 1) as nat,
                        hrefs.len(),
                    );
                }
                return Err(e.into_error());
            },
        };
        entries.push(entry);
        assert(entry_views(entries@) =~= before.push(entry@));
        i = i + 1;
    }
    Ok(entries)
}

/// The events of the entry of one report entry: for an object, the answer
/// of the object as a resource of `principal` to the query; for an address
/// without an object, the bare status Not Found.
pub open spec fn entry_events(
    entry: ReportEntryModel,
    principal: Seq<char>,
    prefix: Seq<char>,
    query: PropfindModel,
) -> Option<Seq<EventModel>> {
    match entry {
        ReportEntryModel::Found { path, object } => answer_events::<CalendarObjectResource>(
            CalendarObjectResourceModel { object, principal },
            path,
            prefix,
            query,
        ),
        ReportEntryModel::Missing { href } => Some(response_of(href, Some(404u16), seq![])),
    }
}

/// The events of the entries of the first `n` report entries, in order.
pub open spec fn report_events(
    entries: Seq<ReportEntryModel>,
    principal: Seq<char>,
    prefix: Seq<char>,
    query: PropfindModel,
    n: nat,
) -> Option<Seq<EventModel>>
    decreases n,
{
    if n == 0 {
        Some(seq![])
    } else {
        match (
            report_events(entries, principal, prefix, query, (n - 1) as nat),
            entry_events(entries[n - 1], principal, prefix, query),
        ) {
            (Some(before), Some(events)) => Some(before + events),
            _ => None,
        }
    }
}

/// What the first entries are written as does not depend on the entries
/// after them.
proof fn lemma_responses_prefix<T: XmlType>(
    a: Seq<ResponseElement<T>>,
    b: Seq<ResponseElement<T>>,
    n: nat,
)
    requires
        n <= a.len(),
        n <= b.len(),
        forall|k: int| 0 <= k < n ==> a[k] == b[k],
    ensures
        responses_events(a, n) == responses_events(b, n),
    decreases n,
{
    if n > 0 {
        lemma_responses_prefix(a, b, (n - 1) as nat);
    }
}

/// Reading the properties of a calendar object never fails, and every
/// value read can be written.
pub proof fn lemma_object_values_are_written(
    resource: CalendarObjectResourceModel,
    prefix: Seq<char>,
    names: Seq<CalendarObjectPropName>,
    n: nat,
)
    requires
        n <= names.len(),
    ensures
        values_of::<CalendarObjectResource>(resource, prefix, names, n) is Ok,
        values_of::<CalendarObjectResource>(resource, prefix, names, n)->Ok_0.len() == n,
        values_events::<CalendarObjectProp>(
            values_of::<CalendarObjectResource>(resource, prefix, names, names.len())->Ok_0,
            n,
        ) is Some,
    decreases n,
{
    lemma_object_values_are_read(resource, prefix, names, names.len());
    let all = values_of::<CalendarObjectResource>(resource, prefix, names, names.len())->Ok_0;
    if n > 0 {
        lemma_object_values_are_written(resource, prefix, names, (n - 1) as nat);
        crate::methods::propfind_laws::lemma_values_are_pointwise::<CalendarObjectResource>(
            resource,
            prefix,
            names,
            names.len(),
        );
        let value = all[n - 1];
        assert(CalendarObjectResource::spec_get_prop(resource, prefix, names[n - 1]) == Ok::<
            CalendarObjectPropModel,
            Error,
        >(value));
        lemma_props_are_canonical(value);
    }
}

/// Reading the properties of a calendar object never fails.
pub proof fn lemma_object_values_are_read(
    resource: CalendarObjectResourceModel,
    prefix: Seq<char>,
    names: Seq<CalendarObjectPropName>,
    n: nat,
)
    requires
        n <= names.len(),
    ensures
        values_of::<CalendarObjectResource>(resource, prefix, names, n) is Ok,
        values_of::<CalendarObjectResource>(resource, prefix, names, n)->Ok_0.len() == n,
    decreases n,
{
    if n > 0 {
        lemma_object_values_are_read(resource, prefix, names, (n - 1) as nat);
    }
}

/// Every answer of a calendar object can be written.
pub proof fn lemma_object_answer_is_written(
    resource: CalendarObjectResourceModel,
    path: Seq<char>,
    prefix: Seq<char>,
    query: PropfindModel,
)
    ensures
        answer_events::<CalendarObjectResource>(resource, path, prefix, query) is Some,
{
    if !(query is Propname) {
        let tags = asked_tags::<CalendarObjectPropName>(query);
        let names = known_names::<CalendarObjectPropName>(tags, tags.len());
        lemma_object_values_are_written(resource, prefix, names, names.len());
    }
}

/// Every report can be written.
pub proof fn lemma_report_is_written(
    entries: Seq<ReportEntryModel>,
    principal: Seq<char>,
    prefix: Seq<char>,
    query: PropfindModel,
    n: nat,
)
    requires
        n <= entries.len(),
    ensures
        report_events(entries, principal, prefix, query, n) is Some,
    decreases n,
{
    if n > 0 {
        lemma_report_is_written(entries, principal, prefix, query, (n - 1) as nat);
        match entries[n - 1] {
            ReportEntryModel::Found { path, object } => {
                lemma_object_answer_is_written(
                    CalendarObjectResourceModel { object, principal },
                    path,
                    prefix,
                    query,
                );
            },
            _ => {},
        }
    }
}

/// The response entries of report entries: one for each, in their order.
pub fn report_responses(
    entries: Vec<ReportEntry>,
    principal: &str,
    prefix: &str,
    query: &PropfindType,
) -> (responses: Vec<ResponseElement<CalendarObjectProp>>)
    ensures
        responses.len() == entries.len(),
        report_events(
            entry_views(entries@),
            principal@,
            prefix@,
            query@,
            entries.len() as nat,
        ) is Some,
        responses_events(responses@, responses.len() as nat) == report_events(
            entry_views(entries@),
            principal@,
            prefix@,
            query@,
            entries.len() as nat,
        ),
{
    let ghost plan = entry_views(entries@);
    proof {
        lemma_report_is_written(plan, principal@, prefix@, query@, plan.len());
    }
    let mut responses: Vec<ResponseElement<CalendarObjectProp>> = Vec::new();
    for entry in it: entries
        invariant
            plan == entry_views(it.seq()),
            it.seq() == entries@,
            responses.len() == it.index(),
            responses_events(responses@, it.index() as nat) == report_events(
                plan,
                principal@,
                prefix@,
                query@,
                it.index() as nat,
            ),
    {
        let ghost i = it.index();
        let ghost before = responses@;
        assert(plan[i] == entry@);
        let response = match entry {
            ReportEntry::Found { path, object } => {
                let resource = CalendarObjectResource::new(object, principal.to_owned());
                proof {
                    lemma_object_answer_is_written(resource@, path@, prefix@, query@);
                }
                match propfind(&resource, path.as_str(), prefix, query) {
                    Ok(response) => {
                        proof {
                            lemma_answer_is_written::<CalendarObjectResource>(
                                response,
                                resource@,
                                path@,
                                prefix@,
                                query@,
                            );
                        }
                        response
                    },
                    // Reading the properties of a calendar object never
                    // fails.
                    Err(_) => vstd::pervasive::unreached(),
                }
            },
            ReportEntry::Missing { href } => {
                let response = ResponseElement {
                    href,
                    status: Some(STATUS_NOT_FOUND),
                    propstat: Vec::new(),
                };
                assert(response_events(response) == entry_events(
                    plan[i],
                    principal@,
                    prefix@,
                    query@,
                ));
                response
            },
        };
        responses.push(response);
        proof {
            lemma_responses_prefix(before, responses@, i as nat);
        }
    }
    responses
}

/// Writes the multistatus of a report from its entries: one entry for each
/// report entry, in their order. Asking for names only is not offered in a
/// report.
pub fn write_report(
    entries: Vec<ReportEntry>,
    principal: &str,
    prefix: &str,
    query: &PropfindType,
) -> (response: Result<HttpResponse, Error>)
    ensures
        query@ is Propname ==> (response matches Err(e) && e == Error::NotImplemented),
        !(query@ is Propname) ==> report_events(
            entry_views(entries@),
            principal@,
            prefix@,
            query@,
            entries.len() as nat,
        ) is Some && (response matches Ok(r) && is_multistatus(
            r@,
            multistatus_text(
                report_events(
                    entry_views(entries@),
                    principal@,
                    prefix@,
                    query@,
                    entries.len() as nat,
                )->0,
            ),
        )),
{
    if let PropfindType::Propname = query {
        return Err(Error::NotImplemented);
    }
    let responses = report_responses(entries, principal, prefix, query);
    let multistatus: MultistatusElement<CalendarObjectProp, String> = MultistatusElement {
        responses,
        member_responses: Vec::new(),
    };
    proof {
        let own = responses_events(multistatus.responses@, multistatus.responses.len() as nat)->0;
        assert(own + Seq::<EventModel>::empty() =~= own);
    }
    match multistatus.serialize() {
        Ok(text) => Ok(multistatus_response(text)),
        Err(_) => Err(Error::InternalError),
    }
}

/// Answers a REPORT request on the calendar `path.1` of the principal
/// `path.0`, made by `user` at the address `request_path`: a multistatus
/// with one entry for each object of the report.
pub fn route_report_calendar<C: CalendarStore>(
    store: &C,
    path: (String, String),
    body: &str,
    user: &User,
    request_path: &str,
    prefix: &str,
) -> (response: Result<HttpResponse, Error>)
    ensures
        path.0@ != user@ ==> (response matches Err(e) && e == Error::Unauthorized),
        path.0@ == user@ ==> match spec_parse_report(xml_events(body@)) {
            Err(failure) => response matches Err(e) && e == Error::XmlDeserializationError(failure),
            Ok(report) => match report_entries::<C>(
                store@,
                path.0@,
                path.1@,
                request_path@,
                report,
            ) {
                Err(failure) => response matches Err(e) && e == failure,
                Ok(entries) => if report.query() is Propname {
                    response matches Err(e) && e == Error::NotImplemented
                } else {
                    report_events(entries, path.0@, prefix@, report.query(), entries.len()) is Some
                        && (response matches Ok(r) && is_multistatus(
                        r@,
                        multistatus_text(
                            report_events(
                                entries,
                                path.0@,
                                prefix@,
                                report.query(),
                                entries.len(),
                            )->0,
                        ),
                    ))
                },
            },
        },
{
    let (principal, cid) = path;
    if !str_eq(principal.as_str(), user.id.as_str()) {
        return Err(Error::Unauthorized);
    }
    let request = match ReportRequest::parse_str(body) {
        Ok(request) => request,
        Err(e) => {
            return Err(Error::XmlDeserializationError(e));
        },
    };
    let entries = match &request {
        ReportRequest::CalendarQuery(cal_query) => get_events_calendar_query(
            cal_query,
            cid.as_str(),
            request_path,
            store,
        ),
        ReportRequest::CalendarMultiget(cal_multiget) => get_events_calendar_multiget(
            cal_multiget,
            principal.as_str(),
            cid.as_str(),
            store,
        ),
    };
    let entries = match entries {
        Ok(entries) => entries,
        Err(e) => {
            return Err(e);
        },
    };
    let proptag = match &request {
        ReportRequest::CalendarQuery(CalendarQueryRequest { prop, .. }) => prop,
        ReportRequest::CalendarMultiget(CalendarMultigetRequest { prop, .. }) => prop,
    };
    write_report(entries, principal.as_str(), prefix, proptag)
}

} // verus!
