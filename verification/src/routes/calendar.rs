//! PROPFIND on a calendar collection, and the plain REPORT on it.

use vstd::prelude::*;
use vstd::string::StringExecFns;
use crate::calendar::prop::{
    CalendarProp, CalendarPropModel, CalendarPropName, lemma_calendar_props_are_written,
};
use crate::calendar::report::{
    calendar_members, entry_views, object_path, query_entries, report_events, report_responses,
    ReportEntry, ReportEntryModel,
};
use crate::calendar::resource::{CalendarResource, CalendarResourceModel};
use crate::calendar_object::resource::{
    CalendarObjectProp, CalendarObjectPropModel, CalendarObjectPropName, lemma_props_are_canonical,
};
use crate::elements::{
    PropElement, PropfindElement, PropfindModel, PropfindType, Propname, spec_parse_propfind,
};
use crate::error::Error;
use crate::http::HttpResponse;
use crate::methods::propfind::{
    answer_events, asked_tags, found_and_missing_events, is_multistatus, known_names,
    lemma_answer_is_written, lemma_found_and_missing_are_written, multistatus_response, propfind,
    split_tags, unknown_tags, values_of,
};
use crate::methods::propfind_laws::{
    lemma_distinct_tags_are_reported_once, lemma_values_are_pointwise,
};
use crate::multistatus::{
    MultistatusElement, PropstatElement, PropstatWrapper, ResponseElement, STATUS_NOT_FOUND,
    STATUS_OK, TagList,
};
use crate::multistatus_xml::{multistatus_text, response_events, responses_events, values_events};
use crate::resource::{PropName, Resource, User};
use crate::store::{Calendar, CalendarModel, CalendarObject, CalendarStore, ObjectModel, spec_etag};
use crate::text::{str_eq, views};
use crate::xml::event::EventModel;
use crate::xml::tree::{child_names, first_child, root_element, Tree, TreeNodeModel, xml_nodes};
use crate::xml::typed::XmlType;
use crate::xml::writer::{markup, write_events};

verus! {

/// The first `n` words, each once, in the order in which they first
/// occur, but for the word `allprops`.
pub open spec fn asked_once(words: Seq<Seq<char>>, n: nat) -> Seq<Seq<char>>
    decreases n,
{
    if n == 0 {
        seq![]
    } else {
        let before = asked_once(words, (n - 1) as nat);
        if words[n - 1] == "allprops"@ || before.contains(words[n - 1]) {
            before
        } else {
            before.push(words[n - 1])
        }
    }
}

/// Whether one of the first `n` words is `allprops`.
pub open spec fn asks_all(props: Seq<Seq<char>>, n: nat) -> bool
    decreases n,
{
    n > 0 && (asks_all(props, (n - 1) as nat) || props[n - 1] == "allprops"@)
}

/// The tags that a list of words asks for: the words themselves, after the
/// names of all properties of a calendar where one of the words is
/// `allprops`, which is itself no tag. A tag that occurs again is asked
/// for once, at its first place: a word that `allprops` stands for adds
/// nothing.
pub open spec fn asked_of(props: Seq<Seq<char>>) -> Seq<Seq<char>> {
    let all = if asks_all(props, props.len()) {
        CalendarPropName::spec_variants() + props
    } else {
        props
    };
    asked_once(all, all.len())
}

/// No tag is asked for twice, `allprops` is no tag, and every other word
/// among the first `n` is asked for.
pub proof fn lemma_asked_once(words: Seq<Seq<char>>, n: nat)
    requires
        n <= words.len(),
    ensures
        asked_once(words, n).no_duplicates(),
        !asked_once(words, n).contains("allprops"@),
        forall|i: int|
            0 <= i < n && words[i] != "allprops"@ ==> asked_once(words, n).contains(
                #[trigger] words[i],
            ),
        forall|k: int|
            0 <= k < asked_once(words, n).len() ==> words.take(n as int).contains(
                #[trigger] asked_once(words, n)[k],
            ),
    decreases n,
{
    if n > 0 {
        lemma_asked_once(words, (n - 1) as nat);
        let before = asked_once(words, (n - 1) as nat);
        let now = asked_once(words, n);
        assert forall|i: int| 0 <= i < n && words[i] != "allprops"@ implies now.contains(
            #[trigger] words[i],
        ) by {
            if i < n - 1 {
                let k = choose|k: int| 0 <= k < before.len() && before[k] == words[i];
                assert(now[k] == words[i]);
            } else if before.contains(words[i]) {
            } else {
                assert(now[now.len() - 1] == words[i]);
            }
        }
        assert forall|k: int| 0 <= k < now.len() implies words.take(n as int).contains(
            #[trigger] now[k],
        ) by {
            if k < before.len() {
                let early = words.take(n - 1);
                let j = choose|j: int| 0 <= j < early.len() && early[j] == before[k];
                assert(words.take(n as int)[j] == now[k]);
            } else {
                assert(words.take(n as int)[n - 1] == now[k]);
            }
        }
    }
}

/// `allprops` is no name of a property of a calendar.
proof fn lemma_allprops_is_no_name()
    ensures
        CalendarPropName::spec_from_str("allprops"@) is None,
{
    reveal_strlit("allprops");
    reveal_strlit("resourcetype");
    reveal_strlit("current-user-principal");
    reveal_strlit("displayname");
    reveal_strlit("supported-calendar-component-set");
    reveal_strlit("supported-calendar-data");
    reveal_strlit("getcontenttype");
    reveal_strlit("calendar-description");
    reveal_strlit("owner");
    reveal_strlit("calendar-color");
    assert("allprops"@.len() == 8);
}

/// Words of which none occurs twice and none is `allprops` are all asked
/// for, in their order.
pub proof fn lemma_distinct_words_are_asked(words: Seq<Seq<char>>, n: nat)
    requires
        n <= words.len(),
        words.take(n as int).no_duplicates(),
        forall|i: int| 0 <= i < n ==> words[i] != "allprops"@,
    ensures
        asked_once(words, n) == words.take(n as int),
    decreases n,
{
    if n > 0 {
        let early = words.take(n - 1);
        assert forall|i: int, j: int| 0 <= i < early.len() && 0 <= j < early.len() && i != j implies early[i] != early[j] by {
            assert(words.take(n as int)[i] == early[i]);
            assert(words.take(n as int)[j] == early[j]);
        }
        lemma_distinct_words_are_asked(words, (n - 1) as nat);
        if early.contains(words[n - 1]) {
            let j = choose|j: int| 0 <= j < early.len() && early[j] == words[n - 1];
            assert(words.take(n as int)[j] == words.take(n as int)[n - 1]);
        }
        assert(early.push(words[n - 1]) =~= words.take(n as int));
    }
}

/// What is asked for by the first words stays asked for, at its place, as
/// more words are read.
pub proof fn lemma_asked_once_grows(words: Seq<Seq<char>>, n: nat, m: nat)
    requires
        n <= m,
    ensures
        asked_once(words, n).len() <= asked_once(words, m).len(),
        asked_once(words, m).take(asked_once(words, n).len() as int) == asked_once(words, n),
    decreases m,
{
    if n < m {
        lemma_asked_once_grows(words, n, (m - 1) as nat);
        let short = asked_once(words, n);
        let before = asked_once(words, (m - 1) as nat);
        assert(asked_once(words, m).take(short.len() as int) =~= before.take(short.len() as int));
    } else {
        assert(asked_once(words, m).take(asked_once(words, n).len() as int) =~= asked_once(
            words,
            n,
        ));
    }
}

/// Where one of the words is `allprops`, the tags asked for are the names
/// of all properties of a calendar, each once and in their order, whatever
/// names the words list beside it; after them come the words that are no
/// names.
pub proof fn lemma_allprops_asks_every_name_once(props: Seq<Seq<char>>)
    requires
        asks_all(props, props.len()),
    ensures
        asked_of(props).no_duplicates(),
        CalendarPropName::spec_variants().len() <= asked_of(props).len(),
        asked_of(props).take(CalendarPropName::spec_variants().len() as int)
            == CalendarPropName::spec_variants(),
        forall|k: int|
            CalendarPropName::spec_variants().len() <= k < asked_of(props).len()
                ==> CalendarPropName::spec_from_str(#[trigger] asked_of(props)[k]) is None,
{
    let names = CalendarPropName::spec_variants();
    let all = names + props;
    let asked = asked_of(props);
    lemma_asked_once(all, all.len());
    CalendarPropName::variants_are_the_names();
    lemma_allprops_is_no_name();
    assert(all.take(names.len() as int) =~= names);
    assert forall|i: int| 0 <= i < names.len() implies all[i] != "allprops"@ by {
        assert(names.contains(names[i]));
    }
    lemma_distinct_words_are_asked(all, names.len());
    lemma_asked_once_grows(all, names.len(), all.len());
    assert forall|k: int| names.len() <= k < asked.len() implies CalendarPropName::spec_from_str(
        #[trigger] asked[k],
    ) is None by {
        if names.contains(asked[k]) {
            let i = choose|i: int| 0 <= i < names.len() && names[i] == asked[k];
            assert(asked.take(names.len() as int)[i] == asked[i]);
            assert(asked[i] == asked[k]);
        }
    }
}

/// Reading the properties of a calendar never fails.
pub proof fn lemma_calendar_values_are_read(
    resource: CalendarResourceModel,
    prefix: Seq<char>,
    names: Seq<CalendarPropName>,
    n: nat,
)
    ensures
        values_of::<CalendarResource>(resource, prefix, names, n) is Ok,
        values_of::<CalendarResource>(resource, prefix, names, n)->Ok_0.len() == n,
    decreases n,
{
    if n > 0 {
        lemma_calendar_values_are_read(resource, prefix, names, (n - 1) as nat);
    }
}

/// Every value read from a calendar can be written.
pub proof fn lemma_calendar_values_are_written(
    resource: CalendarResourceModel,
    prefix: Seq<char>,
    names: Seq<CalendarPropName>,
    n: nat,
)
    requires
        n <= names.len(),
    ensures
        values_events::<CalendarProp>(
            values_of::<CalendarResource>(resource, prefix, names, names.len())->Ok_0,
            n,
        ) is Some,
    decreases n,
{
    lemma_calendar_values_are_read(resource, prefix, names, names.len());
    let all = values_of::<CalendarResource>(resource, prefix, names, names.len())->Ok_0;
    if n > 0 {
        lemma_calendar_values_are_written(resource, prefix, names, (n - 1) as nat);
        lemma_values_are_pointwise::<CalendarResource>(resource, prefix, names, names.len());
        let value = all[n - 1];
        assert(CalendarResource::spec_get_prop(resource, prefix, names[n - 1]) == Ok::<
            CalendarPropModel,
            Error,
        >(value));
        lemma_calendar_props_are_written(value);
    }
}

/// Every answer of a calendar can be written.
pub proof fn lemma_calendar_answer_is_written(
    resource: CalendarResourceModel,
    path: Seq<char>,
    prefix: Seq<char>,
    query: PropfindModel,
)
    ensures
        answer_events::<CalendarResource>(resource, path, prefix, query) is Some,
{
    if !(query is Propname) {
        let tags = asked_tags::<CalendarPropName>(query);
        let names = known_names::<CalendarPropName>(tags, tags.len());
        lemma_calendar_values_are_read(resource, prefix, names, names.len());
        lemma_calendar_values_are_written(resource, prefix, names, names.len());
    }
}

fn asked_tags_of(props: &Vec<&str>) -> (tags: Vec<Propname>)
    ensures
        tags@.map_values(|p: Propname| p.0@) == asked_of(props@.map_values(|t: &str| t@)),
{
    let ghost words = props@.map_values(|t: &str| t@);
    let mut expand = false;
    let mut i: usize = 0;
    while i < props.len()
        invariant
            i <= props.len(),
            words == props@.map_values(|t: &str| t@),
            expand == asks_all(words, i as nat),
        decreases props.len() - i,
    {
        assert(words[i as int] == props[i as int]@);
        if str_eq(props[i], "allprops") {
            expand = true;
        }
        i = i + 1;
    }
    let mut all: Vec<&str> = Vec::new();
    let ghost first: Seq<&str> = seq![];
    if expand {
        let names = CalendarPropName::variants();
        let mut k: usize = 0;
        while k < names.len()
            invariant
                k <= names.len(),
                all@ == names@.take(k as int),
            decreases names.len() - k,
        {
            all.push(names[k]);
            assert(all@ =~= names@.take(k + 1));
            k = k + 1;
        }
        assert(names@.take(names.len() as int) =~= names@);
        proof {
            first = names@;
        }
    }
    assert(all@ =~= first);
    let mut i: usize = 0;
    while i < props.len()
        invariant
            i <= props.len(),
            all@ == first + props@.take(i as int),
        decreases props.len() - i,
    {
        all.push(props[i]);
        assert(all@ =~= first + props@.take(i + 1));
        i = i + 1;
    }
    assert(props@.take(props.len() as int) =~= props@);
    assert(all@.map_values(|t: &str| t@) =~= if expand {
        CalendarPropName::spec_variants() + words
    } else {
        words
    }) by {
        if expand {
            assert(first.map_values(|t: &str| t@) == CalendarPropName::spec_variants());
        } else {
            assert(all@ =~= props@);
        }
    }
    let ghost every = all@.map_values(|t: &str| t@);
    let mut tags: Vec<Propname> = Vec::new();
    let mut i: usize = 0;
    assert(tags@.map_values(|p: Propname| p.0@) =~= seq![]);
    while i < all.len()
        invariant
            i <= all.len(),
            every == all@.map_values(|t: &str| t@),
            tags@.map_values(|p: Propname| p.0@) == asked_once(every, i as nat),
        decreases all.len() - i,
    {
        let ghost before = tags@.map_values(|p: Propname| p.0@);
        assert(every[i as int] == all[i as int]@);
        if !str_eq(all[i], "allprops") && !is_asked(&tags, all[i]) {
            tags.push(Propname(all[i].to_owned()));
            assert(tags@.map_values(|p: Propname| p.0@) =~= before.push(all[i as int]@));
        }
        i = i + 1;
    }
    tags
}

/// Whether a tag is among those asked for.
fn is_asked(tags: &Vec<Propname>, word: &str) -> (held: bool)
    ensures
        held == tags@.map_values(|p: Propname| p.0@).contains(word@),
{
    let ghost all = tags@.map_values(|p: Propname| p.0@);
    let mut i: usize = 0;
    while i < tags.len()
        invariant
            i <= tags.len(),
            all == tags@.map_values(|p: Propname| p.0@),
            forall|j: int| 0 <= j < i ==> all[j] != word@,
        decreases tags.len() - i,
    {
        assert(all[i as int] == tags[i as int].0@);
        if str_eq(tags[i].0.as_str(), word) {
            return true;
        }
        i = i + 1;
    }
    false
}

/// The events of the entry of a calendar for a list of words.
pub open spec fn calendar_entry(
    calendar: CalendarModel,
    principal: Seq<char>,
    path: Seq<char>,
    prefix: Seq<char>,
    props: Seq<Seq<char>>,
) -> Option<Seq<EventModel>> {
    answer_events::<CalendarResource>(
        CalendarResourceModel { calendar, principal },
        path,
        prefix,
        PropfindModel::Prop(asked_of(props)),
    )
}

/// The entry of a calendar collection for a list of words, written as XML:
/// the values of the properties of a calendar among them under OK, every
/// other word, if there is one, under Not Found. Nothing is reported
/// twice, however often it is asked for.
pub fn generate_propfind_calendar_response(
    props: Vec<&str>,
    principal: &str,
    path: &str,
    prefix: &str,
    calendar: &Calendar,
) -> (text: Result<String, Error>)
    ensures
        asked_of(props@.map_values(|t: &str| t@)).no_duplicates(),
        known_names::<CalendarPropName>(
            asked_of(props@.map_values(|t: &str| t@)),
            asked_of(props@.map_values(|t: &str| t@)).len(),
        ).no_duplicates(),
        unknown_tags::<CalendarPropName>(
            asked_of(props@.map_values(|t: &str| t@)),
            asked_of(props@.map_values(|t: &str| t@)).len(),
        ).no_duplicates(),
        calendar_entry(calendar@, principal@, path@, prefix@, props@.map_values(|t: &str| t@))
            is Some,
        text matches Ok(t) && t@ == markup(
            calendar_entry(
                calendar@,
                principal@,
                path@,
                prefix@,
                props@.map_values(|t: &str| t@),
            )->0,
            calendar_entry(
                calendar@,
                principal@,
                path@,
                prefix@,
                props@.map_values(|t: &str| t@),
            )->0.len(),
        ),
{
    proof {
        let words = props@.map_values(|t: &str| t@);
        let all = if asks_all(words, words.len()) {
            CalendarPropName::spec_variants() + words
        } else {
            words
        };
        lemma_asked_once(all, all.len());
        lemma_distinct_tags_are_reported_once::<CalendarPropName>(
            asked_of(words),
            asked_of(words).len(),
        );
        lemma_calendar_answer_is_written(
            CalendarResourceModel { calendar: calendar@, principal: principal@ },
            path@,
            prefix@,
            PropfindModel::Prop(asked_of(words)),
        );
    }
    let tags = asked_tags_of(&props);
    let query = PropfindType::Prop(PropElement(tags));
    let resource = CalendarResource {
        calendar: calendar.duplicate(),
        principal: principal.to_owned(),
    };
    proof {
        let asked = asked_of(props@.map_values(|t: &str| t@));
        let names = known_names::<CalendarPropName>(asked, asked.len());
        lemma_calendar_values_are_read(resource@, prefix@, names, names.len());
    }
    let response = match propfind(&resource, path, prefix, &query) {
        Ok(response) => response,
        Err(_) => {
            return Err(Error::InternalError);
        },
    };
    proof {
        lemma_answer_is_written::<CalendarResource>(
            response,
            resource@,
            path@,
            prefix@,
            query@,
        );
    }
    match response.to_events() {
        Ok(events) => Ok(write_events(&events)),
        Err(_) => Err(Error::InternalError),
    }
}

/// The members of a calendar that a PROPFIND reports on: its objects,
/// where they are asked for.
pub open spec fn asked_members<C: CalendarStore>(
    store: C::V,
    cid: Seq<char>,
    request_path: Seq<char>,
    with_members: bool,
) -> Result<Seq<ReportEntryModel>, Error> {
    if with_members {
        query_entries::<C>(store, cid, request_path)
    } else {
        Ok(seq![])
    }
}

/// Answers a PROPFIND request on a calendar collection: a multistatus with
/// the entry of the calendar first and, where the members are asked for,
/// the entries of its objects after it, in the order of the store. A
/// store that fails is an internal failure, a body that cannot be decoded a
/// bad request.
pub fn route_propfind_calendar<C: CalendarStore>(
    store: &C,
    path: (String, String),
    body: &str,
    request_path: &str,
    prefix: &str,
    user: &User,
    with_members: bool,
) -> (response: Result<HttpResponse, Error>)
    ensures
        match C::spec_get_calendar(store@, path.0@, path.1@) {
            Err(_) => response matches Err(e) && e == Error::InternalError,
            Ok(calendar) => match spec_parse_propfind(body@) {
                Err(_) => response matches Err(e) && e == Error::BadRequest,
                Ok(query) => match asked_members::<C>(
                    store@,
                    path.1@,
                    request_path@,
                    with_members,
                ) {
                    Err(_) => response matches Err(e) && e == Error::InternalError,
                    Ok(members) => {
                        let own = answer_events::<CalendarResource>(
                            CalendarResourceModel { calendar, principal: user@ },
                            request_path@,
                            prefix@,
                            query,
                        );
                        let others = report_events(members, path.0@, prefix@, query, members.len());
                        &&& own is Some
                        &&& others is Some
                        &&& response matches Ok(r) && is_multistatus(
                            r@,
                            multistatus_text(own->0 + others->0),
                        )
                    },
                },
            },
        },
{
    let (principal, cid) = path;
    let calendar = match store.get_calendar(principal.as_str(), cid.as_str()) {
        Ok(calendar) => calendar,
        Err(_) => {
            return Err(Error::InternalError);
        },
    };
    let element = match PropfindElement::parse_str(body) {
        Ok(element) => element,
        Err(_) => {
            return Err(Error::BadRequest);
        },
    };
    let members = if with_members {
        match calendar_members(cid.as_str(), request_path, store) {
            Ok(members) => members,
            Err(_) => {
                return Err(Error::InternalError);
            },
        }
    } else {
        let none: Vec<ReportEntry> = Vec::new();
        assert(entry_views(none@) =~= seq![]);
        none
    };
    let resource = CalendarResource { calendar, principal: user.id.clone() };
    proof {
        lemma_calendar_answer_is_written(resource@, request_path@, prefix@, element.prop@);
        let asked = asked_tags::<CalendarPropName>(element.prop@);
        let names = known_names::<CalendarPropName>(asked, asked.len());
        lemma_calendar_values_are_read(resource@, prefix@, names, names.len());
    }
    let entry = match propfind(&resource, request_path, prefix, &element.prop) {
        Ok(entry) => entry,
        Err(_) => {
            return Err(Error::InternalError);
        },
    };
    proof {
        lemma_answer_is_written::<CalendarResource>(
            entry,
            resource@,
            request_path@,
            prefix@,
            element.prop@,
        );
        reveal_with_fuel(responses_events, 2);
    }
    let member_responses = report_responses(members, principal.as_str(), prefix, &element.prop);
    let mut responses: Vec<ResponseElement<CalendarProp>> = Vec::new();
    responses.push(entry);
    proof {
        let own = response_events(entry)->0;
        assert(Seq::<EventModel>::empty() + own =~= own);
    }
    let multistatus: MultistatusElement<CalendarProp, CalendarObjectProp> = MultistatusElement {
        responses,
        member_responses,
    };
    match multistatus.serialize() {
        Ok(text) => Ok(multistatus_response(text)),
        Err(_) => Err(Error::InternalError),
    }
}

/// The value of a property of an object in a plain report.
pub open spec fn plain_prop(object: ObjectModel, name: CalendarObjectPropName) -> CalendarObjectPropModel {
    match name {
        CalendarObjectPropName::Getetag => CalendarObjectPropModel::Getetag(spec_etag(object)),
        CalendarObjectPropName::CalendarData => CalendarObjectPropModel::CalendarData(object.ics),
        CalendarObjectPropName::Getcontenttype => CalendarObjectPropModel::Getcontenttype(
            "text/calendar"@,
        ),
    }
}

/// The values of names in a plain report, one for one.
pub open spec fn plain_props(object: ObjectModel, names: Seq<CalendarObjectPropName>) -> Seq<
    CalendarObjectPropModel,
> {
    names.map_values(|name: CalendarObjectPropName| plain_prop(object, name))
}

/// The events of the entry of one object in a plain report: its address
/// below the address of the calendar, the values of the names among the
/// tags under OK and, if there are any, the other tags under Not Found.
pub open spec fn plain_entry(object: ObjectModel, tags: Seq<Seq<char>>, request_path: Seq<char>) -> Option<
    Seq<EventModel>,
> {
    found_and_missing_events::<CalendarObjectProp>(
        object_path(request_path, object.id),
        plain_props(object, known_names::<CalendarObjectPropName>(tags, tags.len())),
        unknown_tags::<CalendarObjectPropName>(tags, tags.len()),
    )
}

/// The events of the entries of the first `n` objects, in order.
pub open spec fn plain_entries(
    objects: Seq<ObjectModel>,
    tags: Seq<Seq<char>>,
    request_path: Seq<char>,
    n: nat,
) -> Option<Seq<EventModel>>
    decreases n,
{
    if n == 0 {
        Some(seq![])
    } else {
        match (
            plain_entries(objects, tags, request_path, (n - 1) as nat),
            plain_entry(objects[n - 1], tags, request_path),
        ) {
            (Some(before), Some(events)) => Some(before + events),
            _ => None,
        }
    }
}

/// The values of a plain report can be written.
pub proof fn lemma_plain_props_are_written(
    object: ObjectModel,
    names: Seq<CalendarObjectPropName>,
    n: nat,
)
    requires
        n <= names.len(),
    ensures
        values_events::<CalendarObjectProp>(plain_props(object, names), n) is Some,
    decreases n,
{
    if n > 0 {
        lemma_plain_props_are_written(object, names, (n - 1) as nat);
        lemma_props_are_canonical(plain_props(object, names)[n - 1]);
    }
}

/// Every plain report can be written.
pub proof fn lemma_plain_entries_are_written(
    objects: Seq<ObjectModel>,
    tags: Seq<Seq<char>>,
    request_path: Seq<char>,
    n: nat,
)
    requires
        n <= objects.len(),
    ensures
        plain_entries(objects, tags, request_path, n) is Some,
    decreases n,
{
    if n > 0 {
        lemma_plain_entries_are_written(objects, tags, request_path, (n - 1) as nat);
        let names = known_names::<CalendarObjectPropName>(tags, tags.len());
        lemma_plain_props_are_written(objects[n - 1], names, names.len());
    }
}

/// What the first entries are written as does not depend on the entries
/// after them.
proof fn lemma_plain_responses_prefix(
    a: Seq<ResponseElement<CalendarObjectProp>>,
    b: Seq<ResponseElement<CalendarObjectProp>>,
    n: nat,
)
    requires
        n <= a.len(),
        n <= b.len(),
        forall|k: int| 0 <= k < n ==> a[k] == b[k],
    ensures
        responses_events(a, n) == responses_events(b, n),
    decreases n,
{
    if n > 0 {
        lemma_plain_responses_prefix(a, b, (n - 1) as nat);
    }
}

/// Reads the values of names for a plain report.
fn plain_values(object: &CalendarObject, names: &Vec<CalendarObjectPropName>) -> (values: Vec<
    CalendarObjectProp,
>)
    ensures
        values@.map_values(|p: CalendarObjectProp| p@) == plain_props(object@, names@),
{
    let mut values: Vec<CalendarObjectProp> = Vec::new();
    let mut i: usize = 0;
    while i < names.len()
        invariant
            i <= names.len(),
            values.len() == i,
            forall|j: int| 0 <= j < i ==> (#[trigger] values[j])@ == plain_prop(object@, names[j]),
        decreases names.len() - i,
    {
        let value = match names[i] {
            CalendarObjectPropName::Getetag => CalendarObjectProp::Getetag(object.get_etag()),
            CalendarObjectPropName::CalendarData => CalendarObjectProp::CalendarData(
                object.get_ics().to_owned(),
            ),
            CalendarObjectPropName::Getcontenttype => CalendarObjectProp::Getcontenttype(
                "text/calendar".to_owned(),
            ),
        };
        assert(value@ == plain_prop(object@, names[i as int]));
        values.push(value);
        i = i + 1;
    }
    assert(values@.map_values(|p: CalendarObjectProp| p@) =~= plain_props(object@, names@));
    values
}

/// The entry of one object in a plain report.
fn plain_response(object: &CalendarObject, tags: &Vec<String>, request_path: &str) -> (response:
    ResponseElement<CalendarObjectProp>)
    ensures
        response_events(response) == plain_entry(object@, views(tags@), request_path@),
{
    let (valid, invalid) = split_tags::<CalendarObjectPropName>(tags);
    let values = plain_values(object, &valid);
    let mut path = request_path.to_owned();
    path.append("/");
    path.append(object.get_uid());
    proof {
        reveal_strlit("/");
    }
    assert(path@ =~= object_path(request_path@, object@.id));
    let mut propstat: Vec<PropstatWrapper<CalendarObjectProp>> = Vec::new();
    propstat.push(PropstatWrapper::Normal(PropstatElement { prop: values, status: STATUS_OK }));
    if !invalid.is_empty() {
        propstat.push(
            PropstatWrapper::TagList(
                PropstatElement { prop: TagList::from(invalid), status: STATUS_NOT_FOUND },
            ),
        );
    }
    let response = ResponseElement { href: path, status: None, propstat };
    proof {
        lemma_found_and_missing_are_written(
            response,
            plain_props(object@, valid@),
            views(invalid@),
        );
    }
    response
}

/// The answer of a plain report on objects, for the element at the place
/// `query` of the tree of the body: a body without `prop` in that element
/// is a bad request.
pub open spec fn spec_handle_report(
    nodes: Seq<TreeNodeModel>,
    query: int,
    request_path: Seq<char>,
    objects: Seq<ObjectModel>,
) -> Result<Seq<EventModel>, Error> {
    if !(0 <= query < nodes.len()) {
        Err(Error::BadRequest)
    } else {
        match first_child(nodes, nodes[query].id, Some("prop"@), nodes.len()) {
            None => Err(Error::BadRequest),
            Some(prop) => {
                let tags = child_names(nodes, nodes[prop].id, nodes.len());
                match plain_entries(objects, tags, request_path, objects.len()) {
                    Some(events) => Ok(events),
                    None => Err(Error::InternalError),
                }
            },
        }
    }
}

/// Writes the multistatus of a plain report: for every object one entry,
/// with the values of those of `getetag`, `calendar-data` and
/// `getcontenttype` that are named under the `prop` of the element at the
/// place `query` under OK, and every other name under it under Not Found.
pub fn handle_report_calendar_query(
    tree: &Tree,
    query: usize,
    request_path: &str,
    events: Vec<CalendarObject>,
) -> (response: Result<HttpResponse, Error>)
    ensures
        match spec_handle_report(
            tree@,
            query as int,
            request_path@,
            events@.map_values(|o: CalendarObject| o@),
        ) {
            Ok(entries) => response matches Ok(r) && is_multistatus(r@, multistatus_text(entries)),
            Err(e) => response matches Err(x) && x == e,
        },
{
    if query >= tree.nodes.len() {
        return Err(Error::BadRequest);
    }
    assert(tree@[query as int] == tree.nodes[query as int]@);
    let prop = match tree.first_child(tree.nodes[query].id, Some("prop")) {
        Some(prop) => prop,
        None => {
            return Err(Error::BadRequest);
        },
    };
    assert(tree@[prop as int] == tree.nodes[prop as int]@);
    let tags = tree.child_names(tree.nodes[prop].id);
    let ghost objects = events@.map_values(|o: CalendarObject| o@);
    proof {
        lemma_plain_entries_are_written(objects, views(tags@), request_path@, objects.len());
    }
    let mut responses: Vec<ResponseElement<CalendarObjectProp>> = Vec::new();
    let mut i: usize = 0;
    while i < events.len()
        invariant
            i <= events.len(),
            objects == events@.map_values(|o: CalendarObject| o@),
            responses.len() == i,
            responses_events(responses@, i as nat) == plain_entries(
                objects,
                views(tags@),
                request_path@,
                i as nat,
            ),
            plain_entries(objects, views(tags@), request_path@, objects.len()) is Some,
        decreases events.len() - i,
    {
        let ghost before = responses@;
        assert(objects[i as int] == events[i as int]@);
        let response = plain_response(&events[i], &tags, request_path);
        responses.push(response);
        proof {
            lemma_plain_responses_prefix(before, responses@, i as nat);
        }
        i = i + 1;
    }
    let multistatus: MultistatusElement<CalendarObjectProp, String> = MultistatusElement {
        responses,
        member_responses: Vec::new(),
    };
    proof {
        reveal_with_fuel(responses_events, 1);
        let own = responses_events(multistatus.responses@, multistatus.responses.len() as nat)->0;
        assert(own + Seq::<EventModel>::empty() =~= own);
    }
    match multistatus.serialize() {
        Ok(text) => Ok(multistatus_response(text)),
        Err(_) => Err(Error::InternalError),
    }
}

/// The answer of a plain report on the calendar `cid`: a body that is no
/// document is a bad request, and so is a root that is neither
/// `calendar-query` nor `calendar-multiget`; a store that fails is an
/// internal failure.
pub open spec fn spec_plain_report<C: CalendarStore>(
    store: C::V,
    cid: Seq<char>,
    body: Seq<char>,
    request_path: Seq<char>,
) -> Result<Seq<EventModel>, Error> {
    match xml_nodes(body) {
        None => Err(Error::BadRequest),
        Some(nodes) => match root_element(nodes) {
            None => Err(Error::BadRequest),
            Some(query) => match C::spec_get_events(store, cid) {
                Err(_) => Err(Error::InternalError),
                Ok(objects) => if nodes[query].name != "calendar-query"@ && nodes[query].name
                    != "calendar-multiget"@ {
                    Err(Error::BadRequest)
                } else {
                    spec_handle_report(nodes, query, request_path, objects)
                },
            },
        },
    }
}

/// Answers a plain REPORT request on a calendar: whatever the report asks
/// for, every object of the calendar is reported, with the properties
/// named under `prop`.
pub fn route_report_calendar<C: CalendarStore>(
    store: &C,
    cid: &str,
    body: &str,
    request_path: &str,
) -> (response: Result<HttpResponse, Error>)
    ensures
        match spec_plain_report::<C>(store@, cid@, body@, request_path@) {
            Ok(entries) => response matches Ok(r) && is_multistatus(r@, multistatus_text(entries)),
            Err(e) => response matches Err(x) && x == e,
        },
{
    let tree = match Tree::parse(body) {
        Some(tree) => tree,
        None => {
            return Err(Error::BadRequest);
        },
    };
    let query = match tree.root_element() {
        Some(query) => query,
        None => {
            return Err(Error::BadRequest);
        },
    };
    let events = match store.get_events(cid) {
        Ok(events) => events,
        Err(_) => {
            return Err(Error::InternalError);
        },
    };
    assert(tree@[query as int] == tree.nodes[query as int]@);
    let name = tree.nodes[query].name.as_str();
    if !str_eq(name, "calendar-query") && !str_eq(name, "calendar-multiget") {
        return Err(Error::BadRequest);
    }
    handle_report_calendar_query(&tree, query, request_path, events)
}

} // verus!
