//! What holds of every answer to a query.

use vstd::prelude::*;
use crate::elements::PropfindModel;
use crate::error::Error;
use crate::methods::propfind::{answers, asked_tags, known_names, unknown_tags, values_of};
use crate::multistatus::{PropstatWrapper, ResponseElement, STATUS_OK};
use crate::multistatus_xml::names_events;
use crate::resource::{PropName, Resource};
use crate::xml::event::EventKind;

verus! {

/// Every name found among tags is the name of one of them, and every tag
/// left over is one that the kind does not know.
pub proof fn lemma_split_is_exact<N: PropName>(tags: Seq<Seq<char>>, n: nat)
    requires
        n <= tags.len(),
    ensures
        forall|i: int|
            0 <= i < known_names::<N>(tags, n).len() ==> tags.take(n as int).contains(
                (#[trigger] known_names::<N>(tags, n)[i]).spec_as_str(),
            ),
        forall|i: int|
            0 <= i < unknown_tags::<N>(tags, n).len() ==> N::spec_from_str(
                #[trigger] unknown_tags::<N>(tags, n)[i],
            ) is None,
        known_names::<N>(tags, n).len() + unknown_tags::<N>(tags, n).len() == n,
    decreases n,
{
    if n > 0 {
        lemma_split_is_exact::<N>(tags, (n - 1) as nat);
        N::variants_are_the_names();
        let before = known_names::<N>(tags, (n - 1) as nat);
        let now = known_names::<N>(tags, n);
        assert forall|i: int| 0 <= i < now.len() implies tags.take(n as int).contains(
            (#[trigger] now[i]).spec_as_str(),
        ) by {
            if i < before.len() {
                let tag = before[i].spec_as_str();
                let early = tags.take(n - 1);
                let j = choose|j: int| 0 <= j < early.len() && #[trigger] early[j] == tag;
                assert(tags.take(n as int)[j] == tag);
            } else {
                assert(tags.take(n as int)[n - 1] == tags[n - 1]);
            }
        }
    }
}

/// Where every tag is known, the names found are the tags' names in order.
pub proof fn lemma_known_tags_are_all_found<N: PropName>(tags: Seq<Seq<char>>, n: nat)
    requires
        n <= tags.len(),
        forall|i: int| 0 <= i < tags.len() ==> N::spec_from_str(#[trigger] tags[i]) is Some,
    ensures
        known_names::<N>(tags, n).len() == n,
        unknown_tags::<N>(tags, n).len() == 0,
        forall|i: int|
            0 <= i < n ==> Some(#[trigger] known_names::<N>(tags, n)[i]) == N::spec_from_str(
                tags[i],
            ),
    decreases n,
{
    if n > 0 {
        lemma_known_tags_are_all_found::<N>(tags, (n - 1) as nat);
    }
}

/// Values read without failure are the values of the names, one for one.
pub proof fn lemma_values_are_pointwise<R: Resource>(
    resource: R::V,
    prefix: Seq<char>,
    names: Seq<R::PropName>,
    n: nat,
)
    requires
        n <= names.len(),
        values_of::<R>(resource, prefix, names, n) is Ok,
    ensures
        values_of::<R>(resource, prefix, names, n)->Ok_0.len() == n,
        forall|i: int|
            0 <= i < n ==> R::spec_get_prop(resource, prefix, names[i]) == Ok::<
                <R::Prop as View>::V,
                Error,
            >(#[trigger] values_of::<R>(resource, prefix, names, n)->Ok_0[i]),
    decreases n,
{
    if n > 0 {
        lemma_values_are_pointwise::<R>(resource, prefix, names, (n - 1) as nat);
    }
}

/// The answer to a query for all properties holds one group, OK, with one
/// value for each name of the resource kind, in the order of the kind's list
/// of names; no name occurs twice, and nothing is reported as not found.
pub proof fn lemma_allprop_lists_every_name<R: Resource>(
    response: ResponseElement<R::Prop>,
    resource: R::V,
    path: Seq<char>,
    prefix: Seq<char>,
)
    requires
        answers::<R>(response, resource, path, prefix, PropfindModel::Allprop),
    ensures
        R::PropName::spec_variants().no_duplicates(),
        response.propstat.len() == 1,
        response.propstat[0] matches PropstatWrapper::Normal(group) && group.status == STATUS_OK
            && group.prop.len() == R::PropName::spec_variants().len() && forall|i: int|
            0 <= i < group.prop.len() ==> (R::spec_prop_name(#[trigger] group.prop[i]@) matches Some(
                name,
            ) && name.spec_as_str() == R::PropName::spec_variants()[i]),
{
    let tags = R::PropName::spec_variants();
    R::PropName::variants_are_the_names();
    assert(asked_tags::<R::PropName>(PropfindModel::Allprop) == tags);
    assert forall|i: int| 0 <= i < tags.len() implies R::PropName::spec_from_str(
        #[trigger] tags[i],
    ) is Some by {
        assert(tags.contains(tags[i]));
    }
    lemma_known_tags_are_all_found::<R::PropName>(tags, tags.len());
    let names = known_names::<R::PropName>(tags, tags.len());
    lemma_values_are_pointwise::<R>(resource, prefix, names, names.len());
    let found = values_of::<R>(resource, prefix, names, names.len())->Ok_0;
    let group = response.propstat[0]->Normal_0;
    assert forall|i: int| 0 <= i < group.prop.len() implies (R::spec_prop_name(
        #[trigger] group.prop[i]@,
    ) matches Some(name) && name.spec_as_str() == tags[i]) by {
        assert(group.prop@.map_values(|t: R::Prop| t@)[i] == found[i]);
        R::get_prop_keeps_the_name(resource, prefix, names[i]);
        assert(Some(names[i]) == R::PropName::spec_from_str(tags[i]));
    }
}

/// In the answer to any query for values, no tag is reported twice over:
/// the values under OK belong to names that the kind knows, each asked for,
/// and the tags under Not Found are tags that the kind does not know.
pub proof fn lemma_groups_are_disjoint<R: Resource>(
    response: ResponseElement<R::Prop>,
    resource: R::V,
    path: Seq<char>,
    prefix: Seq<char>,
    query: PropfindModel,
)
    requires
        query !is Propname,
        answers::<R>(response, resource, path, prefix, query),
    ensures
        response.propstat[0] matches PropstatWrapper::Normal(group) && forall|i: int|
            0 <= i < group.prop.len() ==> (R::spec_prop_name(#[trigger] group.prop[i]@) matches Some(
                name,
            ) && asked_tags::<R::PropName>(query).contains(name.spec_as_str())
                && R::PropName::spec_variants().contains(name.spec_as_str())),
        response.propstat.len() == 2 ==> (response.propstat[1] matches PropstatWrapper::TagList(
            group,
        ) && forall|i: int|
            0 <= i < group.prop@.len() ==> !R::PropName::spec_variants().contains(
                #[trigger] group.prop@[i],
            )),
{
    let tags = asked_tags::<R::PropName>(query);
    R::PropName::variants_are_the_names();
    lemma_split_is_exact::<R::PropName>(tags, tags.len());
    assert(tags.take(tags.len() as int) =~= tags);
    let names = known_names::<R::PropName>(tags, tags.len());
    lemma_values_are_pointwise::<R>(resource, prefix, names, names.len());
    let found = values_of::<R>(resource, prefix, names, names.len())->Ok_0;
    let group = response.propstat[0]->Normal_0;
    assert forall|i: int| 0 <= i < group.prop.len() implies (R::spec_prop_name(
        #[trigger] group.prop[i]@,
    ) matches Some(name) && tags.contains(name.spec_as_str())
        && R::PropName::spec_variants().contains(name.spec_as_str())) by {
        assert(group.prop@.map_values(|t: R::Prop| t@)[i] == found[i]);
        R::get_prop_keeps_the_name(resource, prefix, names[i]);
        let tag = names[i].spec_as_str();
        assert(tags.contains(tag));
        lemma_name_has_known_tag::<R::PropName>(tags, tags.len(), i);
    }
}

/// Every tag left over is one of the tags.
pub proof fn lemma_unknown_tags_are_tags<N: PropName>(tags: Seq<Seq<char>>, n: nat)
    requires
        n <= tags.len(),
    ensures
        forall|i: int|
            0 <= i < unknown_tags::<N>(tags, n).len() ==> tags.take(n as int).contains(
                #[trigger] unknown_tags::<N>(tags, n)[i],
            ),
    decreases n,
{
    if n > 0 {
        lemma_unknown_tags_are_tags::<N>(tags, (n - 1) as nat);
        let before = unknown_tags::<N>(tags, (n - 1) as nat);
        let now = unknown_tags::<N>(tags, n);
        assert forall|i: int| 0 <= i < now.len() implies tags.take(n as int).contains(
            #[trigger] now[i],
        ) by {
            if i < before.len() {
                let early = tags.take(n - 1);
                let j = choose|j: int| 0 <= j < early.len() && early[j] == before[i];
                assert(tags.take(n as int)[j] == now[i]);
            } else {
                assert(tags.take(n as int)[n - 1] == now[i]);
            }
        }
    }
}

/// Where no tag is asked for twice, no name is found twice and no tag is
/// left over twice: nothing is reported twice in an entry.
pub proof fn lemma_distinct_tags_are_reported_once<N: PropName>(tags: Seq<Seq<char>>, n: nat)
    requires
        n <= tags.len(),
        tags.no_duplicates(),
    ensures
        known_names::<N>(tags, n).no_duplicates(),
        unknown_tags::<N>(tags, n).no_duplicates(),
    decreases n,
{
    if n > 0 {
        lemma_distinct_tags_are_reported_once::<N>(tags, (n - 1) as nat);
        lemma_split_is_exact::<N>(tags, (n - 1) as nat);
        lemma_unknown_tags_are_tags::<N>(tags, (n - 1) as nat);
        N::variants_are_the_names();
        let early = tags.take(n - 1);
        let names = known_names::<N>(tags, (n - 1) as nat);
        let rest = unknown_tags::<N>(tags, (n - 1) as nat);
        assert forall|i: int| 0 <= i < names.len() implies (#[trigger] names[i]).spec_as_str()
            != tags[n - 1] by {
            let tag = names[i].spec_as_str();
            let j = choose|j: int| 0 <= j < early.len() && early[j] == tag;
            assert(tags[j] == tag);
        }
        assert forall|i: int| 0 <= i < rest.len() implies #[trigger] rest[i] != tags[n - 1] by {
            let j = choose|j: int| 0 <= j < early.len() && early[j] == rest[i];
            assert(tags[j] == rest[i]);
        }
        match N::spec_from_str(tags[n - 1]) {
            Some(name) => {
                assert(name.spec_as_str() == tags[n - 1]);
            },
            None => {},
        }
    }
}

/// The tag of a name found among tags is a tag that the kind knows.
pub proof fn lemma_name_has_known_tag<N: PropName>(tags: Seq<Seq<char>>, n: nat, i: int)
    requires
        n <= tags.len(),
        0 <= i < known_names::<N>(tags, n).len(),
    ensures
        N::spec_from_str(known_names::<N>(tags, n)[i].spec_as_str()) is Some,
        N::spec_variants().contains(known_names::<N>(tags, n)[i].spec_as_str()),
    decreases n,
{
    N::variants_are_the_names();
    if n > 0 {
        let before = known_names::<N>(tags, (n - 1) as nat);
        if i < before.len() {
            lemma_name_has_known_tag::<N>(tags, (n - 1) as nat, i);
        } else {
            assert(N::spec_from_str(tags[n - 1]) is Some);
            assert(N::spec_from_str(tags[n - 1])->0.spec_as_str() == tags[n - 1]);
        }
    }
}

/// Bare names are written as elements without content, one for each name:
/// a query for names never shows a value.
pub proof fn lemma_names_are_written_empty(names: Seq<Seq<char>>, n: nat)
    requires
        n <= names.len(),
    ensures
        names_events(names, n).len() == n,
        forall|j: int|
            0 <= j < n ==> (#[trigger] names_events(names, n)[j]).kind == EventKind::Empty
                && names_events(names, n)[j].name == names[j] && names_events(
                names,
                n,
            )[j].attributes.len() == 0 && names_events(names, n)[j].content.len() == 0,
    decreases n,
{
    if n > 0 {
        lemma_names_are_written_empty(names, (n - 1) as nat);
    }
}

} // verus!
