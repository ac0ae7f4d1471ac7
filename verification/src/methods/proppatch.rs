//! PROPPATCH: setting and removing properties, all or nothing.

use vstd::prelude::*;
use crate::error::Error;
use crate::methods::propertyupdate::spec_parse_update;
use crate::multistatus::{
    MultistatusElement, PropstatElement, PropstatWrapper, ResponseElement, STATUS_CONFLICT,
    STATUS_NOT_FOUND, STATUS_OK, TagList,
};
use crate::privileges::UserPrivilege;
use crate::resource::{
    InvalidProperty, PropName, Resource, ResourceService, static_views, User, value_views,
};
use crate::text::views;
use crate::xml::reader::xml_events;

verus! {

/// `<set>`: the property to set, already decoded as a value of the resource.
#[derive(Debug)]
pub struct SetPropertyElement<T> {
    pub prop: T,
}

/// The literal tag of a property.
#[derive(Debug)]
pub struct TagName {
    pub name: String,
}

#[derive(Debug)]
pub struct PropertyElement {
    pub property: TagName,
}

/// `<remove>`: the property to remove.
#[derive(Debug)]
pub struct RemovePropertyElement {
    pub prop: PropertyElement,
}

/// One operation of a property update.
#[derive(Debug)]
pub enum Operation<T> {
    SetProperty(SetPropertyElement<T>),
    Remove(RemovePropertyElement),
}

/// What an operation holds: the value to set, or the literal tag of the
/// property to remove.
pub enum OperationModel<V> {
    SetProperty(V),
    Remove(Seq<char>),
}

impl<T: View> View for Operation<T> {
    type V = OperationModel<T::V>;

    open spec fn view(&self) -> OperationModel<T::V> {
        match self {
            Operation::SetProperty(set) => OperationModel::SetProperty(set.prop@),
            Operation::Remove(remove) => OperationModel::Remove(remove.prop.property.name@),
        }
    }
}

/// `<propertyupdate>`: the operations in document order.
#[derive(Debug)]
pub struct PropertyupdateElement<T> {
    pub operations: Vec<Operation<T>>,
}

/// A resource under update, and the names reported so far under each status.
pub struct Patched<R> {
    pub resource: R,
    pub ok: Seq<Seq<char>>,
    pub not_found: Seq<Seq<char>>,
    pub conflict: Seq<Seq<char>>,
}

impl<R> Patched<R> {
    /// Nothing was refused, so the update may be stored.
    pub open spec fn clean(self) -> bool {
        self.not_found.len() == 0 && self.conflict.len() == 0
    }
}

/// Where the outcome of a set or remove is reported: a read-only property is
/// a conflict, any other failure ends the request.
pub open spec fn settle<R>(
    state: Patched<R>,
    next: R,
    done: Result<(), Error>,
    name: Seq<char>,
) -> Result<Patched<R>, Error> {
    match done {
        Ok(()) => Ok(Patched { resource: next, ok: state.ok.push(name), ..state }),
        Err(Error::PropReadOnly) => Ok(
            Patched { resource: next, conflict: state.conflict.push(name), ..state },
        ),
        Err(e) => Err(e),
    }
}

/// One operation, with the literal tag `name` of its property.
pub open spec fn patch_one<R: Resource>(
    state: Patched<R::V>,
    operation: OperationModel<<R::Prop as View>::V>,
    name: Seq<char>,
) -> Result<Patched<R::V>, Error> {
    match operation {
        OperationModel::SetProperty(prop) => {
            if R::Prop::spec_invalid_property(prop) {
                if R::PropName::spec_variants().contains(name) {
                    Ok(Patched { conflict: state.conflict.push(name), ..state })
                } else {
                    Ok(Patched { not_found: state.not_found.push(name), ..state })
                }
            } else {
                let (next, done) = R::spec_set_prop(state.resource, prop);
                settle(state, next, done, name)
            }
        },
        OperationModel::Remove(_) => {
            match R::PropName::spec_from_str(name) {
                Some(prop) => {
                    let (next, done) = R::spec_remove_prop(state.resource, prop);
                    settle(state, next, done, name)
                },
                None => Ok(Patched { ok: state.ok.push(name), ..state }),
            }
        },
    }
}

/// The first `n` operations, each with the name at its place in `names`, in
/// order; the first hard failure ends the run.
pub open spec fn patch_all<R: Resource>(
    resource: R::V,
    operations: Seq<OperationModel<<R::Prop as View>::V>>,
    names: Seq<Seq<char>>,
    n: nat,
) -> Result<Patched<R::V>, Error>
    decreases n,
{
    if n == 0 {
        Ok(Patched { resource, ok: seq![], not_found: seq![], conflict: seq![] })
    } else {
        match patch_all::<R>(resource, operations, names, (n - 1) as nat) {
            Ok(state) => patch_one::<R>(state, operations[n - 1], names[n - 1]),
            Err(e) => Err(e),
        }
    }
}

/// How many operations are run: each needs its recovered name.
pub open spec fn paired(operations: int, names: int) -> nat {
    if operations <= names {
        operations as nat
    } else {
        names as nat
    }
}

/// The names that an update reported under each status.
#[derive(Debug)]
pub struct PatchedNames {
    pub ok: Vec<String>,
    pub not_found: Vec<String>,
    pub conflict: Vec<String>,
}

impl PatchedNames {
    /// Whether these are the names of `state`.
    pub open spec fn reports<R>(self, state: Patched<R>) -> bool {
        &&& views(self.ok@) == state.ok
        &&& views(self.not_found@) == state.not_found
        &&& views(self.conflict@) == state.conflict
    }
}

/// Runs the operations on a resource in memory. Nothing is stored.
pub fn apply_operations<R: Resource>(
    resource: &mut R,
    operations: Vec<Operation<R::Prop>>,
    propnames: Vec<String>,
) -> (outcome: Result<PatchedNames, Error>)
    ensures
        match patch_all::<R>(
            old(resource)@,
            value_views(operations@),
            views(propnames@),
            paired(operations.len() as int, propnames.len() as int),
        ) {
            Ok(state) => outcome matches Ok(names) && names.reports(state) && final(resource)@
                == state.resource,
            Err(e) => outcome matches Err(x) && x == e,
        },
{
    let mut props_ok: Vec<String> = Vec::new();
    let mut props_conflict: Vec<String> = Vec::new();
    let mut props_not_found: Vec<String> = Vec::new();
    let known = R::list_props();
    let ghost start = resource@;
    let ghost ops = value_views(operations@);
    let ghost names = views(propnames@);
    let mut i: usize = 0;
    assert(views(props_ok@) =~= seq![]);
    assert(views(props_conflict@) =~= seq![]);
    assert(views(props_not_found@) =~= seq![]);
    for operation in it: operations
        invariant
            value_views(it.seq()) == ops,
            ops == value_views(operations@),
            start == old(resource)@,
            names == views(propnames@),
            i == paired(it.index() as int, propnames.len() as int),
            static_views(known@) == R::PropName::spec_variants(),
            patch_all::<R>(start, ops, names, i as nat) == Ok::<Patched<R::V>, Error>(
                Patched {
                    resource: resource@,
                    ok: views(props_ok@),
                    not_found: views(props_not_found@),
                    conflict: views(props_conflict@),
                },
            ),
    {
        if i < propnames.len() {
            let propname = propnames[i].clone();
            assert(propname@ == names[i as int]);
            let ghost before = Patched {
                resource: resource@,
                ok: views(props_ok@),
                not_found: views(props_not_found@),
                conflict: views(props_conflict@),
            };
            let ghost total = paired(ops.len() as int, names.len() as int);
            assert(operation@ == ops[i as int]);
            assert(i + 1 <= total);
            match operation {
                Operation::SetProperty(SetPropertyElement { prop }) => {
                    if prop.invalid_property() {
                        if contains_static(&known, propname.as_str()) {
                            // Known to the resource, yet not a value a client can
                            // send: read-only or internal.
                            props_conflict.push(propname);
                            assert(views(props_conflict@) =~= before.conflict.push(
                                names[i as int],
                            ));
                        } else {
                            props_not_found.push(propname);
                            assert(views(props_not_found@) =~= before.not_found.push(
                                names[i as int],
                            ));
                        }
                    } else {
                        match resource.set_prop(prop) {
                            Ok(()) => {
                                props_ok.push(propname);
                                assert(views(props_ok@) =~= before.ok.push(names[i as int]));
                            },
                            Err(Error::PropReadOnly) => {
                                props_conflict.push(propname);
                                assert(views(props_conflict@) =~= before.conflict.push(
                                    names[i as int],
                                ));
                            },
                            Err(err) => {
                                proof {
                                    lemma_failure_stays::<R>(start, ops, names, (i + 1) as nat, total);
                                }
                                return Err(err);
                            },
                        }
                    }
                },
                Operation::Remove(_remove_el) => {
                    match R::PropName::from_str(propname.as_str()) {
                        Some(prop) => match resource.remove_prop(&prop) {
                            Ok(()) => {
                                props_ok.push(propname);
                                assert(views(props_ok@) =~= before.ok.push(names[i as int]));
                            },
                            Err(Error::PropReadOnly) => {
                                props_conflict.push(propname);
                                assert(views(props_conflict@) =~= before.conflict.push(
                                    names[i as int],
                                ));
                            },
                            Err(err) => {
                                proof {
                                    lemma_failure_stays::<R>(start, ops, names, (i + 1) as nat, total);
                                }
                                return Err(err);
                            },
                        },
                        // Removing a property that does not exist changes nothing.
                        None => {
                            props_ok.push(propname);
                            assert(views(props_ok@) =~= before.ok.push(names[i as int]));
                        },
                    }
                },
            }
            i = i + 1;
        }
    }
    Ok(PatchedNames { ok: props_ok, not_found: props_not_found, conflict: props_conflict })
}

/// A whole property update on a session: the session afterwards, and what
/// is reported or why the request failed. The resource is fetched, the
/// identity must hold `Write` on it, and it is stored only if nothing was
/// refused.
pub open spec fn spec_proppatch<S: ResourceService>(
    service: S::V,
    operations: Seq<OperationModel<<<S::Resource as Resource>::Prop as View>::V>>,
    names: Seq<Seq<char>>,
    user: Seq<char>,
) -> (S::V, Result<Patched<<S::Resource as View>::V>, Error>) {
    match S::spec_get_resource(service) {
        Err(e) => (service, Err(e)),
        Ok(resource) => match S::Resource::spec_user_privileges(resource, user) {
            Err(e) => (service, Err(e)),
            Ok(privileges) => {
                if !privileges@.contains(UserPrivilege::Write) {
                    (service, Err(Error::Unauthorized))
                } else {
                    match patch_all::<S::Resource>(
                        resource,
                        operations,
                        names,
                        paired(operations.len() as int, names.len() as int),
                    ) {
                        Err(e) => (service, Err(e)),
                        Ok(state) => {
                            if state.clean() {
                                let (after, saved) = S::spec_save_resource(service, state.resource);
                                match saved {
                                    Ok(()) => (after, Ok(state)),
                                    Err(e) => (after, Err(e)),
                                }
                            } else {
                                (service, Ok(state))
                            }
                        },
                    }
                }
            },
        },
    }
}

/// Whether a response is the report of an update of the resource at `href`:
/// one entry with the three groups OK, Not Found and Conflict, in this order.
pub open spec fn reports_update<R>(
    response: MultistatusElement<String, String>,
    href: Seq<char>,
    state: Patched<R>,
) -> bool {
    &&& response.responses.len() == 1
    &&& response.member_responses.len() == 0
    &&& response.responses[0].href@ == href
    &&& response.responses[0].status is None
    &&& response.responses[0].propstat.len() == 3
    &&& response.responses[0].propstat[0].is_names(STATUS_OK, state.ok)
    &&& response.responses[0].propstat[1].is_names(STATUS_NOT_FOUND, state.not_found)
    &&& response.responses[0].propstat[2].is_names(STATUS_CONFLICT, state.conflict)
}

/// Applies a property update to the resource of a session and reports, per
/// property, how it went.
pub fn proppatch<S: ResourceService>(
    service: &mut S,
    operations: Vec<Operation<<S::Resource as Resource>::Prop>>,
    propnames: Vec<String>,
    href: &str,
    user: &User,
) -> (response: Result<MultistatusElement<String, String>, Error>)
    ensures
        ({
            let (after, outcome) = spec_proppatch::<S>(
                old(service)@,
                value_views(operations@),
                views(propnames@),
                user@,
            );
            &&& final(service)@ == after
            &&& match outcome {
                Ok(state) => response matches Ok(r) && reports_update(r, href@, state),
                Err(e) => response matches Err(x) && x == e,
            }
        }),
{
    let mut resource = match service.get_resource() {
        Ok(resource) => resource,
        Err(e) => {
            return Err(e);
        },
    };
    let privileges = match resource.get_user_privileges(user) {
        Ok(privileges) => privileges,
        Err(e) => {
            return Err(e);
        },
    };
    if !privileges.has(&UserPrivilege::Write) {
        return Err(Error::Unauthorized);
    }
    let names = match apply_operations(&mut resource, operations, propnames) {
        Ok(names) => names,
        Err(e) => {
            return Err(e);
        },
    };
    if names.not_found.is_empty() && names.conflict.is_empty() {
        // Only stored if nothing was refused.
        match service.save_resource(resource) {
            Ok(()) => {},
            Err(e) => {
                return Err(e);
            },
        }
    }
    let PatchedNames { ok, not_found, conflict } = names;
    let mut propstat: Vec<PropstatWrapper<String>> = Vec::new();
    propstat.push(
        PropstatWrapper::TagList(PropstatElement { prop: TagList::from(ok), status: STATUS_OK }),
    );
    propstat.push(
        PropstatWrapper::TagList(
            PropstatElement { prop: TagList::from(not_found), status: STATUS_NOT_FOUND },
        ),
    );
    propstat.push(
        PropstatWrapper::TagList(
            PropstatElement { prop: TagList::from(conflict), status: STATUS_CONFLICT },
        ),
    );
    let mut responses: Vec<ResponseElement<String>> = Vec::new();
    responses.push(ResponseElement { href: href.to_owned(), status: None, propstat });
    Ok(MultistatusElement { responses, member_responses: Vec::new() })
}

/// The session after a PROPPATCH request with the given body, and what is
/// answered. A body that cannot be decoded fails the request before the
/// resource is fetched.
pub open spec fn spec_route_proppatch<S: ResourceService>(
    service: S::V,
    body: Seq<char>,
    user: Seq<char>,
) -> (S::V, Result<Patched<<S::Resource as View>::V>, Error>) {
    match spec_parse_update::<<S::Resource as Resource>::Prop>(xml_events(body)) {
        Err(e) => (service, Err(Error::XmlDeserializationError(e))),
        Ok((operations, names)) => spec_proppatch::<S>(service, operations, names, user),
    }
}

/// Answers a PROPPATCH request on the resource of a session.
pub fn route_proppatch<S: ResourceService>(service: &mut S, body: &str, href: &str, user: &User) -> (response:
    Result<MultistatusElement<String, String>, Error>)
    ensures
        ({
            let (after, outcome) = spec_route_proppatch::<S>(old(service)@, body@, user@);
            &&& final(service)@ == after
            &&& match outcome {
                Ok(state) => response matches Ok(r) && reports_update(r, href@, state),
                Err(e) => response matches Err(x) && x == e,
            }
        }),
{
    // Extract the operations, and the names of all properties without
    // verification.
    let (update, propnames) = match PropertyupdateElement::<
        <S::Resource as Resource>::Prop,
    >::parse_str(body) {
        Ok(parsed) => parsed,
        Err(e) => {
            return Err(Error::XmlDeserializationError(e));
        },
    };
    let PropertyupdateElement { operations } = update;
    proppatch(service, operations, propnames, href, user)
}

/// Whether a string is one of the entries of a list of static strings.
pub fn contains_static(list: &Vec<&'static str>, s: &str) -> (r: bool)
    ensures
        r == static_views(list@).contains(s@),
{
    let ghost tags = static_views(list@);
    let mut i: usize = 0;
    while i < list.len()
        invariant
            i <= list.len(),
            tags == static_views(list@),
            forall|j: int| 0 <= j < i ==> tags[j] != s@,
        decreases list.len() - i,
    {
        if crate::text::str_eq(list[i], s) {
            assert(tags[i as int] == s@);
            return true;
        }
        i = i + 1;
    }
    false
}

/// Once a run has failed, running further operations changes nothing.
pub proof fn lemma_failure_stays<R: Resource>(
    resource: R::V,
    operations: Seq<OperationModel<<R::Prop as View>::V>>,
    names: Seq<Seq<char>>,
    n: nat,
    m: nat,
)
    requires
        n <= m,
        patch_all::<R>(resource, operations, names, n) is Err,
    ensures
        patch_all::<R>(resource, operations, names, m) == patch_all::<R>(
            resource,
            operations,
            names,
            n,
        ),
    decreases m,
{
    if n < m {
        lemma_failure_stays::<R>(resource, operations, names, n, (m - 1) as nat);
    }
}

} // verus!
